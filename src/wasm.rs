//! Token-contract operations. The amount of such a submission lives inside an
//! application-level JSON message carried as field 3 of the payload, so a
//! translation decodes the outer binary message, then the inner JSON message,
//! scales its amount, and encodes both layers again.
use vstd::prelude::*;
use vstd::utf8::*;

use cosmwasm_std::Uint128 as U;
use cw20::Cw20ExecuteMsg as M;

use crate::amount::{new_amount_gauge_fraction, scaled, Decimal};
use crate::coin::{coins_at, coins_view, get_coins_from_bytes, Coin, CoinView};
use crate::error::TranslationError;
use crate::msg::{stargate, AdapterCw20Msgs, AdapterWasmMsg, CanonicalMessage, CanonicalView, SubmissionMsg};
use crate::wire::{
    appended, bufany_parses, bytes_value, decode, repeated, repeated_value, text_value, wire_of,
    FieldWriter, WireField,
};

verus! {

#[verifier::external_type_specification]
#[verifier::external_body]
pub struct ExExpiration(cw20::Expiration);

pub open spec fn execute_contract_url() -> Seq<char> {
    "/cosmwasm.v1.wasm.MsgExecuteContract"@
}

/// A token transfer.
#[derive(Debug, Clone, PartialEq, Eq)]
pub struct Cw20TransferMsg {
    pub recipient: String,
    pub amount: u128,
}

/// A token send to a contract, with the message the contract receives.
#[derive(Debug, Clone, PartialEq, Eq)]
pub struct Cw20SendMsg {
    pub contract: String,
    pub amount: u128,
    pub msg: Vec<u8>,
}

/// A change of an allowance.
#[derive(Debug, Clone, PartialEq)]
pub struct Cw20Allowance {
    pub spender: String,
    pub amount: u128,
    pub expires: Option<cw20::Expiration>,
}

/// A token mint.
#[derive(Debug, Clone, PartialEq, Eq)]
pub struct Cw20MintMsg {
    pub recipient: String,
    pub amount: u128,
}

/// The inner message of a token-contract operation.
#[derive(Debug, Clone, PartialEq)]
pub enum Cw20Call {
    Transfer(Cw20TransferMsg),
    Send(Cw20SendMsg),
    IncreaseAllowance(Cw20Allowance),
    DecreaseAllowance(Cw20Allowance),
    Mint(Cw20MintMsg),
}

/// An inner message as values.
pub enum Cw20CallView {
    Transfer { recipient: Seq<char>, amount: u128 },
    Send { contract: Seq<char>, amount: u128, msg: Seq<u8> },
    IncreaseAllowance { spender: Seq<char>, amount: u128, expires: Option<cw20::Expiration> },
    DecreaseAllowance { spender: Seq<char>, amount: u128, expires: Option<cw20::Expiration> },
    Mint { recipient: Seq<char>, amount: u128 },
}

impl View for Cw20Call {
    type V = Cw20CallView;

    open spec fn view(&self) -> Cw20CallView {
        match self {
            Cw20Call::Transfer(m) => Cw20CallView::Transfer { recipient: m.recipient@, amount: m.amount },
            Cw20Call::Send(m) => Cw20CallView::Send {
                contract: m.contract@,
                amount: m.amount,
                msg: m.msg@,
            },
            Cw20Call::IncreaseAllowance(m) => Cw20CallView::IncreaseAllowance {
                spender: m.spender@,
                amount: m.amount,
                expires: m.expires,
            },
            Cw20Call::DecreaseAllowance(m) => Cw20CallView::DecreaseAllowance {
                spender: m.spender@,
                amount: m.amount,
                expires: m.expires,
            },
            Cw20Call::Mint(m) => Cw20CallView::Mint { recipient: m.recipient@, amount: m.amount },
        }
    }
}

/// The amount of an inner message.
pub open spec fn call_amount(c: Cw20CallView) -> u128 {
    match c {
        Cw20CallView::Transfer { amount, .. } => amount,
        Cw20CallView::Send { amount, .. } => amount,
        Cw20CallView::IncreaseAllowance { amount, .. } => amount,
        Cw20CallView::DecreaseAllowance { amount, .. } => amount,
        Cw20CallView::Mint { amount, .. } => amount,
    }
}

/// An inner message with its amount replaced by `a`.
pub open spec fn with_amount(c: Cw20CallView, a: u128) -> Cw20CallView {
    match c {
        Cw20CallView::Transfer { recipient, .. } => Cw20CallView::Transfer { recipient, amount: a },
        Cw20CallView::Send { contract, msg, .. } => Cw20CallView::Send { contract, amount: a, msg },
        Cw20CallView::IncreaseAllowance { spender, expires, .. } => Cw20CallView::IncreaseAllowance {
            spender,
            amount: a,
            expires,
        },
        Cw20CallView::DecreaseAllowance { spender, expires, .. } => Cw20CallView::DecreaseAllowance {
            spender,
            amount: a,
            expires,
        },
        Cw20CallView::Mint { recipient, .. } => Cw20CallView::Mint { recipient, amount: a },
    }
}

/// The inner message has the kind that the operation names.
pub open spec fn call_is(op: AdapterCw20Msgs, c: Cw20CallView) -> bool {
    match op {
        AdapterCw20Msgs::Transfer() => c is Transfer,
        AdapterCw20Msgs::Send() => c is Send,
        AdapterCw20Msgs::IncreaseAllowance() => c is IncreaseAllowance,
        AdapterCw20Msgs::DecreaseAllowance() => c is DecreaseAllowance,
        AdapterCw20Msgs::Mint() => c is Mint,
    }
}

/// The opening of the JSON object that names the operation `op`.
pub open spec fn frame_open(op: AdapterCw20Msgs) -> Seq<u8> {
    match op {
        AdapterCw20Msgs::Transfer() => encode_utf8("{\"transfer\":"@),
        AdapterCw20Msgs::Send() => encode_utf8("{\"send\":"@),
        AdapterCw20Msgs::IncreaseAllowance() => encode_utf8("{\"increase_allowance\":"@),
        AdapterCw20Msgs::DecreaseAllowance() => encode_utf8("{\"decrease_allowance\":"@),
        AdapterCw20Msgs::Mint() => encode_utf8("{\"mint\":"@),
    }
}

/// The inner message `inner` wrapped in an object that names `op`.
pub open spec fn framed(op: AdapterCw20Msgs, inner: Seq<u8>) -> Seq<u8> {
    frame_open(op) + inner + seq![125u8]
}

/// The inner message of a wrapped one, if `b` is wrapped as `op` names.
pub open spec fn unframed(op: AdapterCw20Msgs, b: Seq<u8>) -> Option<Seq<u8>> {
    let p = frame_open(op);
    if b.len() >= p.len() + 1 && b.subrange(0, p.len() as int) == p && b.last() == 125u8 {
        Some(b.subrange(p.len() as int, b.len() - 1))
    } else {
        None
    }
}

/// What `cosmwasm_std::from_json` reads from `b` as a `cw20::Cw20ExecuteMsg`,
/// where that is one of the five operations handled here.
pub uninterp spec fn cw20_execute_from_json(b: Seq<u8>) -> Option<Cw20CallView>;

/// What `cosmwasm_std::to_json_vec` writes for the `cw20::Cw20ExecuteMsg` that
/// `c` stands for.
pub uninterp spec fn cw20_execute_to_json(c: Cw20CallView) -> Option<Seq<u8>>;

pub open spec fn call_option_view(r: Option<Cw20Call>) -> Option<Cw20CallView> {
    match r {
        Some(c) => Some(c@),
        None => None,
    }
}

pub open spec fn bytes_option_view(r: Option<Vec<u8>>) -> Option<Seq<u8>> {
    match r {
        Some(b) => Some(b@),
        None => None,
    }
}

/// Relies on `cosmwasm_std::from_json::<cw20::Cw20ExecuteMsg>`: the operation
/// that the JSON bytes `b` hold, with its fields moved over unchanged.
#[verifier::external_body]
fn cw20_from_json(b: &[u8]) -> (r: Option<Cw20Call>)
    ensures
        call_option_view(r) == cw20_execute_from_json(b@),
{
    match cosmwasm_std::from_json::<M>(b) {
        Ok(M::Transfer { recipient, amount }) => Some(Cw20Call::Transfer(Cw20TransferMsg { recipient, amount: amount.u128() })),
        Ok(M::Send { contract, amount, msg }) => Some(Cw20Call::Send(Cw20SendMsg { contract, amount: amount.u128(), msg: msg.0 })),
        Ok(M::IncreaseAllowance { spender, amount, expires }) => Some(Cw20Call::IncreaseAllowance(Cw20Allowance { spender, amount: amount.u128(), expires })),
        Ok(M::DecreaseAllowance { spender, amount, expires }) => Some(Cw20Call::DecreaseAllowance(Cw20Allowance { spender, amount: amount.u128(), expires })),
        Ok(M::Mint { recipient, amount }) => Some(Cw20Call::Mint(Cw20MintMsg { recipient, amount: amount.u128() })),
        _ => None,
    }
}

/// Relies on `cosmwasm_std::to_json_vec` on a `cw20::Cw20ExecuteMsg`: the JSON
/// bytes of the operation `c`, its fields moved over unchanged.
#[verifier::external_body]
fn cw20_to_json(c: Cw20Call) -> (r: Option<Vec<u8>>)
    ensures
        bytes_option_view(r) == cw20_execute_to_json(c@),
{
    let m = match c {
        Cw20Call::Transfer(t) => M::Transfer { recipient: t.recipient, amount: U::new(t.amount) },
        Cw20Call::Send(s) => M::Send { contract: s.contract, amount: U::new(s.amount), msg: s.msg.into() },
        Cw20Call::IncreaseAllowance(a) => M::IncreaseAllowance { spender: a.spender, amount: U::new(a.amount), expires: a.expires },
        Cw20Call::DecreaseAllowance(a) => M::DecreaseAllowance { spender: a.spender, amount: U::new(a.amount), expires: a.expires },
        Cw20Call::Mint(t) => M::Mint { recipient: t.recipient, amount: U::new(t.amount) },
    };
    cosmwasm_std::to_json_vec(&m).ok()
}

/// The operation `c` with its amount scaled by `fraction`, where `c` is of
/// the kind `op` names.
pub open spec fn rescaled_call(op: AdapterCw20Msgs, c: Cw20CallView, fraction: Decimal) -> Result<
    Cw20CallView,
    TranslationError,
> {
    if !call_is(op, c) {
        Err(TranslationError::InvalidEncoding)
    } else {
        match scaled(call_amount(c), fraction) {
            Err(e) => Err(e),
            Ok(a) => Ok(with_amount(c, a)),
        }
    }
}

pub open spec fn call_result(r: Result<Cw20Call, TranslationError>) -> Result<
    Cw20CallView,
    TranslationError,
> {
    match r {
        Ok(c) => Ok(c@),
        Err(e) => Err(e),
    }
}

/// The inner message `inner` of operation `op` with its amount scaled by
/// `fraction`, as JSON again.
pub open spec fn rescaled_inner(op: AdapterCw20Msgs, inner: Seq<u8>, fraction: Decimal) -> Result<
    Seq<u8>,
    TranslationError,
> {
    match cw20_execute_from_json(framed(op, inner)) {
        None => Err(TranslationError::InvalidEncoding),
        Some(c) => match rescaled_call(op, c, fraction) {
            Err(e) => Err(e),
            Ok(scaled_call) => match cw20_execute_to_json(scaled_call) {
                None => Err(TranslationError::InvalidEncoding),
                Some(o) => match unframed(op, o) {
                    None => Err(TranslationError::InvalidEncoding),
                    Some(i) => Ok(i),
                },
            },
        },
    }
}

impl Cw20Call {
    /// The operation with its amount scaled by `fraction`; an operation of
    /// another kind than `op` names is `InvalidEncoding`.
    pub fn rescaled(self, op: AdapterCw20Msgs, fraction: Decimal) -> (r: Result<
        Cw20Call,
        TranslationError,
    >)
        ensures
            call_result(r) == rescaled_call(op, self@, fraction),
    {
        if !self.is(op) {
            return Err(TranslationError::InvalidEncoding);
        }
        let amount = new_amount_gauge_fraction(self.amount(), fraction)?;
        Ok(self.with_amount(amount))
    }

    /// The amount the operation moves.
    pub fn amount(&self) -> (r: u128)
        ensures
            r == call_amount(self@),
    {
        match self {
            Cw20Call::Transfer(m) => m.amount,
            Cw20Call::Send(m) => m.amount,
            Cw20Call::IncreaseAllowance(m) => m.amount,
            Cw20Call::DecreaseAllowance(m) => m.amount,
            Cw20Call::Mint(m) => m.amount,
        }
    }

    /// The same operation moving `a` instead.
    pub fn with_amount(self, a: u128) -> (r: Cw20Call)
        ensures
            r@ == with_amount(self@, a),
    {
        match self {
            Cw20Call::Transfer(m) => Cw20Call::Transfer(Cw20TransferMsg { amount: a, ..m }),
            Cw20Call::Send(m) => Cw20Call::Send(Cw20SendMsg { amount: a, ..m }),
            Cw20Call::IncreaseAllowance(m) => Cw20Call::IncreaseAllowance(Cw20Allowance { amount: a, ..m }),
            Cw20Call::DecreaseAllowance(m) => Cw20Call::DecreaseAllowance(Cw20Allowance { amount: a, ..m }),
            Cw20Call::Mint(m) => Cw20Call::Mint(Cw20MintMsg { amount: a, ..m }),
        }
    }

    /// Whether the operation is of the kind `op` names.
    pub fn is(&self, op: AdapterCw20Msgs) -> (r: bool)
        ensures
            r == call_is(op, self@),
    {
        match (op, self) {
            (AdapterCw20Msgs::Transfer(), Cw20Call::Transfer(_)) => true,
            (AdapterCw20Msgs::Send(), Cw20Call::Send(_)) => true,
            (AdapterCw20Msgs::IncreaseAllowance(), Cw20Call::IncreaseAllowance(_)) => true,
            (AdapterCw20Msgs::DecreaseAllowance(), Cw20Call::DecreaseAllowance(_)) => true,
            (AdapterCw20Msgs::Mint(), Cw20Call::Mint(_)) => true,
            _ => false,
        }
    }
}

/// The opening of the object that names `op`, as bytes.
fn frame_open_bytes(op: AdapterCw20Msgs) -> (r: &'static [u8])
    ensures
        r@ == frame_open(op),
{
    match op {
        AdapterCw20Msgs::Transfer() => "{\"transfer\":".as_bytes(),
        AdapterCw20Msgs::Send() => "{\"send\":".as_bytes(),
        AdapterCw20Msgs::IncreaseAllowance() => "{\"increase_allowance\":".as_bytes(),
        AdapterCw20Msgs::DecreaseAllowance() => "{\"decrease_allowance\":".as_bytes(),
        AdapterCw20Msgs::Mint() => "{\"mint\":".as_bytes(),
    }
}

/// Wraps `inner` in an object that names `op`.
fn frame(op: AdapterCw20Msgs, inner: &[u8]) -> (r: Vec<u8>)
    ensures
        r@ == framed(op, inner@),
{
    let mut out = vstd::slice::slice_to_vec(frame_open_bytes(op));
    let mut body = vstd::slice::slice_to_vec(inner);
    out.append(&mut body);
    out.push(125u8);
    out
}

/// Takes `b` out of the object that names `op`.
fn unframe(op: AdapterCw20Msgs, b: &[u8]) -> (r: Option<Vec<u8>>)
    ensures
        bytes_option_view(r) == unframed(op, b@),
{
    let p = frame_open_bytes(op);
    if b.len() <= p.len() || b[b.len() - 1] != 125u8 {
        return None;
    }
    let mut i: usize = 0;
    while i < p.len()
        invariant
            i <= p@.len(),
            p@.len() + 1 <= b@.len(),
            p@ == frame_open(op),
            forall|j: int| 0 <= j < i ==> b@[j] == p@[j],
        decreases p@.len() - i,
    {
        if b[i] != p[i] {
            assert(b@.subrange(0, p@.len() as int)[i as int] != p@[i as int]);
            assert(b@.subrange(0, p@.len() as int) != p@);
            return None;
        }
        i = i + 1;
    }
    assert(b@.subrange(0, p@.len() as int) =~= p@);
    let mut out: Vec<u8> = Vec::new();
    let mut k: usize = p.len();
    while k < b.len() - 1
        invariant
            p@.len() <= k <= b@.len() - 1,
            p@.len() + 1 <= b@.len(),
            out@ =~= b@.subrange(p@.len() as int, k as int),
        decreases b@.len() - 1 - k,
    {
        out.push(b[k]);
        k = k + 1;
    }
    Some(out)
}

/// Scales the amount of the inner JSON message `msg` of operation `op`.
pub fn rescale_cw20_msg(op: AdapterCw20Msgs, msg: &Vec<u8>, fraction: Decimal) -> (r: Result<
    Vec<u8>,
    TranslationError,
>)
    ensures
        crate::wire::bytes_result(r) == rescaled_inner(op, msg@, fraction),
{
    let call = match cw20_from_json(frame(op, msg.as_slice()).as_slice()) {
        Some(c) => c,
        None => {
            return Err(TranslationError::InvalidEncoding);
        },
    };
    let scaled_call = call.rescaled(op, fraction)?;
    let out = match cw20_to_json(scaled_call) {
        Some(o) => o,
        None => {
            return Err(TranslationError::InvalidEncoding);
        },
    };
    match unframe(op, out.as_slice()) {
        Some(i) => Ok(i),
        None => Err(TranslationError::InvalidEncoding),
    }
}

/// What a token-contract submission holds.
#[derive(Debug, Clone, PartialEq, Eq)]
pub struct ParseCw20Response {
    pub contract: String,
    pub sender: String,
    pub coins: Vec<Coin>,
    pub exec_msg: Vec<u8>,
}

/// A token-contract submission as values: contract, sender, coins, inner message.
pub type Cw20PayloadView = (Seq<char>, Seq<char>, Seq<CoinView>, Seq<u8>);

impl View for ParseCw20Response {
    type V = Cw20PayloadView;

    open spec fn view(&self) -> Cw20PayloadView {
        (self.contract@, self.sender@, coins_view(self.coins@), self.exec_msg@)
    }
}

/// What a token-contract payload holds: sender 1, contract 2, inner message
/// 3, coins 5.
pub open spec fn cw20_payload_of(payload: Seq<u8>) -> Result<Cw20PayloadView, TranslationError> {
    match text_value(payload, 1) {
        Err(e) => Err(e),
        Ok(sender) => match text_value(payload, 2) {
            Err(e) => Err(e),
            Ok(contract) => match bytes_value(payload, 3) {
                Err(e) => Err(e),
                Ok(inner) => match repeated_value(payload, 5) {
                    Err(e) => Err(e),
                    Ok(coin_msgs) => match coins_at(coin_msgs) {
                        Err(e) => Err(e),
                        Ok(cs) => Ok((contract, sender, cs, inner)),
                    },
                },
            },
        },
    }
}

/// The fields of a contract execution: sender 1, contract 2, inner message 3,
/// and no funds (field 5).
pub open spec fn execute_fields(sender: Seq<char>, contract: Seq<char>, inner: Seq<u8>) -> Seq<
    WireField,
> {
    appended(
        appended(appended(Seq::empty(), 1, encode_utf8(sender)), 2, encode_utf8(contract)),
        3,
        inner,
    ) + repeated(5, Seq::empty())
}

/// The execution on `contract` by `sender` of operation `op`, its inner
/// message's amount scaled by `fraction`.
pub open spec fn cw20_message(
    op: AdapterCw20Msgs,
    contract: Seq<char>,
    sender: Seq<char>,
    msg: Seq<u8>,
    fraction: Decimal,
) -> Result<CanonicalView, TranslationError> {
    match rescaled_inner(op, msg, fraction) {
        Err(e) => Err(e),
        Ok(i) => Ok((execute_contract_url(), wire_of(execute_fields(sender, contract, i)))),
    }
}

/// A token-contract submission translated: a transfer is sent from `dao`, the
/// other operations keep the submission's sender.
pub open spec fn cw20_translation(
    dao: Seq<char>,
    payload: Seq<u8>,
    op: AdapterCw20Msgs,
    fraction: Decimal,
) -> Result<CanonicalView, TranslationError> {
    if !bufany_parses(payload) {
        Err(TranslationError::MalformedPayload)
    } else {
        match cw20_payload_of(payload) {
            Err(e) => Err(e),
            Ok((contract, sender, _cs, inner)) => match op {
                AdapterCw20Msgs::Transfer() => cw20_message(op, contract, dao, inner, fraction),
                _ => cw20_message(op, contract, sender, inner, fraction),
            },
        }
    }
}

pub open spec fn cw20_payload_result(r: Result<ParseCw20Response, TranslationError>) -> Result<
    Cw20PayloadView,
    TranslationError,
> {
    match r {
        Ok(p) => Ok(p@),
        Err(e) => Err(e),
    }
}

/// Translates a token-contract submission.
pub fn parse_stargate_wire_wasm(
    dao: &String,
    msg: &SubmissionMsg,
    wasm_msg: AdapterWasmMsg,
    fraction: Decimal,
) -> (r: Result<CanonicalMessage, TranslationError>)
    ensures
        !bufany_parses(msg.msg@) ==> r == Err::<CanonicalMessage, TranslationError>(
            TranslationError::MalformedPayload,
        ),
        crate::msg::message_result(r) == (match wasm_msg {
            AdapterWasmMsg::Cw20(op) => cw20_translation(dao@, msg.msg@, op, fraction),
        }),
{
    match wasm_msg {
        AdapterWasmMsg::Cw20(cw20_msgs) => match cw20_msgs {
            AdapterCw20Msgs::Transfer() => {
                let parsed = parse_cw20_bufany(&msg.msg)?;
                encode_cw20_transfer_anybuf(&parsed.contract, dao, &parsed.exec_msg, fraction)
            },
            AdapterCw20Msgs::Send() => {
                let parsed = parse_cw20_bufany(&msg.msg)?;
                encode_cw20_send_anybuf(&parsed.contract, &parsed.sender, &parsed.exec_msg, fraction)
            },
            AdapterCw20Msgs::IncreaseAllowance() => {
                let parsed = parse_cw20_bufany(&msg.msg)?;
                encode_cw20_allowance_anybuf(
                    cw20_msgs,
                    &parsed.contract,
                    &parsed.sender,
                    &parsed.exec_msg,
                    fraction,
                )
            },
            AdapterCw20Msgs::DecreaseAllowance() => {
                let parsed = parse_cw20_bufany(&msg.msg)?;
                encode_cw20_allowance_anybuf(
                    cw20_msgs,
                    &parsed.contract,
                    &parsed.sender,
                    &parsed.exec_msg,
                    fraction,
                )
            },
            AdapterCw20Msgs::Mint() => {
                let parsed = parse_cw20_bufany(&msg.msg)?;
                encode_cw20_mint_anybuf(&parsed.contract, &parsed.sender, &parsed.exec_msg, fraction)
            },
        },
    }
}

/// Reads a token-contract payload.
pub fn parse_cw20_bufany(msg: &Vec<u8>) -> (r: Result<ParseCw20Response, TranslationError>)
    ensures
        !bufany_parses(msg@) ==> r == Err::<ParseCw20Response, TranslationError>(
            TranslationError::MalformedPayload,
        ),
        cw20_payload_result(r) == cw20_payload_of(msg@),
{
    let deserialized = decode(msg.as_slice())?;
    let sender = deserialized.string(1)?;
    let contract = deserialized.string(2)?;
    let exec_msg = deserialized.bytes(3)?;
    let coin_bytes = deserialized.repeated_bytes(5)?;
    let coins = get_coins_from_bytes(coin_bytes)?;
    Ok(ParseCw20Response { contract, sender, coins, exec_msg })
}

/// Writes the execution on `contract` by `sender` of the operation `op`
/// whose inner message is `msg`, its amount scaled by `fraction`.
fn encode_cw20_execute(
    op: AdapterCw20Msgs,
    contract: &String,
    sender: &String,
    msg: &Vec<u8>,
    fraction: Decimal,
) -> (r: Result<CanonicalMessage, TranslationError>)
    ensures
        crate::msg::message_result(r) == cw20_message(op, contract@, sender@, msg@, fraction),
{
    let inner = rescale_cw20_msg(op, msg, fraction)?;
    let no_funds: Vec<Vec<u8>> = Vec::new();
    let proto = FieldWriter::new().append_string(1, sender.as_str()).append_string(
        2,
        contract.as_str(),
    ).append_bytes(3, inner.as_slice()).append_repeated_bytes(5, &no_funds).into_bytes();
    assert(no_funds@.map_values(|v: Vec<u8>| v@) =~= Seq::<Seq<u8>>::empty());
    Ok(stargate("/cosmwasm.v1.wasm.MsgExecuteContract", proto))
}

/// Writes a token transfer, its amount scaled by `fraction`.
pub fn encode_cw20_transfer_anybuf(
    contract: &String,
    sender: &String,
    msg: &Vec<u8>,
    fraction: Decimal,
) -> (r: Result<CanonicalMessage, TranslationError>)
    ensures
        crate::msg::message_result(r) == cw20_message(
            AdapterCw20Msgs::Transfer(),
            contract@,
            sender@,
            msg@,
            fraction,
        ),
{
    encode_cw20_execute(AdapterCw20Msgs::Transfer(), contract, sender, msg, fraction)
}

/// Writes a token send, its amount scaled by `fraction`.
pub fn encode_cw20_send_anybuf(
    contract: &String,
    sender: &String,
    msg: &Vec<u8>,
    fraction: Decimal,
) -> (r: Result<CanonicalMessage, TranslationError>)
    ensures
        crate::msg::message_result(r) == cw20_message(
            AdapterCw20Msgs::Send(),
            contract@,
            sender@,
            msg@,
            fraction,
        ),
{
    encode_cw20_execute(AdapterCw20Msgs::Send(), contract, sender, msg, fraction)
}

/// Writes an increase or a decrease of an allowance, its amount scaled by
/// `fraction`.
pub fn encode_cw20_allowance_anybuf(
    op: AdapterCw20Msgs,
    contract: &String,
    sender: &String,
    msg: &Vec<u8>,
    fraction: Decimal,
) -> (r: Result<CanonicalMessage, TranslationError>)
    requires
        op == AdapterCw20Msgs::IncreaseAllowance() || op == AdapterCw20Msgs::DecreaseAllowance(),
    ensures
        crate::msg::message_result(r) == cw20_message(op, contract@, sender@, msg@, fraction),
{
    encode_cw20_execute(op, contract, sender, msg, fraction)
}

/// Writes a token mint, its amount scaled by `fraction`.
pub fn encode_cw20_mint_anybuf(
    contract: &String,
    sender: &String,
    msg: &Vec<u8>,
    fraction: Decimal,
) -> (r: Result<CanonicalMessage, TranslationError>)
    ensures
        crate::msg::message_result(r) == cw20_message(
            AdapterCw20Msgs::Mint(),
            contract@,
            sender@,
            msg@,
            fraction,
        ),
{
    encode_cw20_execute(AdapterCw20Msgs::Mint(), contract, sender, msg, fraction)
}

} // verus!
