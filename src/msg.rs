//! Wire tags, submissions and the canonical outbound message.
use vstd::prelude::*;

use crate::error::TranslationError;

verus! {

/// Identifies the destination family and variant of a submission's action.
#[derive(Debug, Clone, Copy, PartialEq, Eq, Structural)]
pub enum StargateWire {
    Bank(AdapterBankMsg),
    Distribution(AdapterDistributionMsg),
    Staking(AdapterStakingMsg),
    Wasm(AdapterWasmMsg),
    Authz(AdapterAuthzMsg),
    Gov(AdapterGovMsg),
}

#[derive(Debug, Clone, Copy, PartialEq, Eq, Structural)]
pub enum AdapterBankMsg {
    MsgSend(),
}

#[derive(Debug, Clone, Copy, PartialEq, Eq, Structural)]
pub enum AdapterDistributionMsg {
    MsgFundCommunityPool(),
}

#[derive(Debug, Clone, Copy, PartialEq, Eq, Structural)]
pub enum AdapterStakingMsg {
    MsgDelegate(),
    MsgRedelegate(),
}

#[derive(Debug, Clone, Copy, PartialEq, Eq, Structural)]
pub enum AdapterWasmMsg {
    Cw20(AdapterCw20Msgs),
}

/// Operations on a token contract.
#[derive(Debug, Clone, Copy, PartialEq, Eq, Structural)]
pub enum AdapterCw20Msgs {
    Transfer(),
    Send(),
    IncreaseAllowance(),
    DecreaseAllowance(),
    Mint(),
}

#[derive(Debug, Clone, Copy, PartialEq, Eq, Structural)]
pub enum AdapterAuthzMsg {
    MsgExec(),
    MsgGrant(),
    MsgRevoke(),
}

#[derive(Debug, Clone, Copy, PartialEq, Eq, Structural)]
pub enum AdapterGovMsg {
    MsgSendGovProp(),
}

/// An entry of the allow-list: a tag that submissions may use, with an
/// optional ceiling on amounts.
#[derive(Debug, Clone, PartialEq, Eq)]
pub struct PossibleMsg {
    pub stargate: StargateWire,
    pub max_amount: Option<u128>,
}

/// A submission's action: its tag and its opaque payload.
#[derive(Debug, Clone, PartialEq, Eq)]
pub struct SubmissionMsg {
    pub stargate: StargateWire,
    pub msg: Vec<u8>,
}

/// A stored submission.
#[derive(Debug, Clone, PartialEq, Eq)]
pub struct Submission {
    pub sender: String,
    pub name: String,
    pub url: String,
    pub msg: SubmissionMsg,
}

/// The translator's output: a destination message type and its bytes.
#[derive(Debug, Clone, PartialEq, Eq)]
pub struct CanonicalMessage {
    pub type_url: String,
    pub value: Vec<u8>,
}

/// A canonical message as values: its type and its bytes.
pub type CanonicalView = (Seq<char>, Seq<u8>);

impl View for CanonicalMessage {
    type V = CanonicalView;

    open spec fn view(&self) -> CanonicalView {
        (self.type_url@, self.value@)
    }
}

/// What a translation returns, with the message as values.
pub open spec fn message_result(r: Result<CanonicalMessage, TranslationError>) -> Result<
    CanonicalView,
    TranslationError,
> {
    match r {
        Ok(m) => Ok(m@),
        Err(e) => Err(e),
    }
}

/// A canonical message of type `type_url` with the bytes `value`.
pub fn stargate(type_url: &str, value: Vec<u8>) -> (r: CanonicalMessage)
    ensures
        r@ == (type_url@, value@),
{
    CanonicalMessage { type_url: type_url.to_owned(), value }
}

/// The options that submissions currently stand for.
#[derive(Debug, Clone, PartialEq, Eq)]
pub struct AllOptionsResponse {
    pub options: Vec<String>,
}

/// Whether an option is known.
#[derive(Debug, Clone, Copy, PartialEq, Eq, Structural)]
pub struct CheckOptionResponse {
    pub valid: bool,
}

} // verus!
