//! The rules of the submission registry: who may create or overwrite a
//! submission, with which deposit and which action, and who gets deposits
//! back.
use vstd::prelude::*;

use crate::msg::{PossibleMsg, StargateWire};

verus! {

/// A validated denomination: a native one, or a token contract's address.
#[derive(Debug, Clone, PartialEq, Eq)]
pub enum Denom {
    Native(String),
    Cw20(String),
}

/// A denomination as values: whether it is a token contract, and its name.
pub open spec fn denom_view(d: Denom) -> (bool, Seq<char>) {
    match d {
        Denom::Native(n) => (false, n@),
        Denom::Cw20(a) => (true, a@),
    }
}

/// An amount of a validated denomination.
#[derive(Debug, Clone, PartialEq, Eq)]
pub struct Asset {
    pub denom: Denom,
    pub amount: u128,
}

/// An asset as values.
pub type AssetView = ((bool, Seq<char>), u128);

pub open spec fn asset_view(a: Asset) -> AssetView {
    (denom_view(a.denom), a.amount)
}

pub open spec fn asset_option_view(a: Option<Asset>) -> Option<AssetView> {
    match a {
        Some(x) => Some(asset_view(x)),
        None => None,
    }
}

/// Why a registry operation is refused.
#[derive(Debug, Clone, Copy, PartialEq, Eq, Structural)]
pub enum ContractError {
    /// A deposit is required and none was sent.
    NoFunds,
    /// The deposit is not of the required denomination.
    InvalidDepositType,
    /// The deposit is not of the required amount.
    InvalidDepositAmount { correct_amount: u128 },
    /// The submission exists and belongs to someone else.
    UnauthorizedSubmission,
    /// The action's tag is not on the allow-list.
    IncorrectMessage,
    /// No deposit was required, so there is nothing to refund.
    NoDepositToRefund,
    /// Only the admin may do this.
    Unauthorized,
}

/// Some entry of the allow-list has the tag `tag`.
pub open spec fn allowed(possible: Seq<PossibleMsg>, tag: StargateWire) -> bool {
    exists|i: int| 0 <= i < possible.len() && (#[trigger] possible[i]).stargate == tag
}

/// The verdict on a submission by `sender` with the deposit `received` and
/// the action tag `tag`; `previous` is the sender of the submission already
/// stored for the same destination, if any.
pub open spec fn submission_check(
    required: Option<AssetView>,
    received: Option<AssetView>,
    previous: Option<Seq<char>>,
    sender: Seq<char>,
    possible: Seq<PossibleMsg>,
    tag: StargateWire,
) -> Result<(), ContractError> {
    let deposit = match required {
        Some(req) => match received {
            None => Err(ContractError::NoFunds),
            Some(got) => if got.0 != req.0 {
                Err(ContractError::InvalidDepositType)
            } else if got.1 != req.1 {
                Err(ContractError::InvalidDepositAmount { correct_amount: req.1 })
            } else {
                Ok(())
            },
        },
        None => match received {
            Some(got) => if got.1 != 0 {
                Err(ContractError::InvalidDepositAmount { correct_amount: 0 })
            } else {
                Ok(())
            },
            None => Ok(()),
        },
    };
    match deposit {
        Err(e) => Err(e),
        Ok(()) => if previous matches Some(p) && p != sender {
            Err(ContractError::UnauthorizedSubmission)
        } else if !allowed(possible, tag) {
            Err(ContractError::IncorrectMessage)
        } else {
            Ok(())
        },
    }
}

fn same_denom(a: &Denom, b: &Denom) -> (r: bool)
    ensures
        r == (denom_view(*a) == denom_view(*b)),
{
    match (a, b) {
        (Denom::Native(x), Denom::Native(y)) => x.eq(y),
        (Denom::Cw20(x), Denom::Cw20(y)) => x.eq(y),
        _ => false,
    }
}

/// Whether the allow-list has an entry for `tag`.
pub fn is_allowed(possible: &Vec<PossibleMsg>, tag: StargateWire) -> (r: bool)
    ensures
        r == allowed(possible@, tag),
{
    let mut i: usize = 0;
    while i < possible.len()
        invariant
            i <= possible@.len(),
            forall|j: int| 0 <= j < i ==> (#[trigger] possible@[j]).stargate != tag,
        decreases possible@.len() - i,
    {
        if possible[i].stargate == tag {
            return true;
        }
        i = i + 1;
    }
    false
}

/// Decides whether a submission may be created or overwritten.
pub fn check_submission(
    required: &Option<Asset>,
    received: &Option<Asset>,
    previous: &Option<String>,
    sender: &String,
    possible: &Vec<PossibleMsg>,
    tag: StargateWire,
) -> (r: Result<(), ContractError>)
    ensures
        r == submission_check(
            asset_option_view(*required),
            asset_option_view(*received),
            match previous {
                Some(p) => Some(p@),
                None => None,
            },
            sender@,
            possible@,
            tag,
        ),
{
    match required {
        Some(req) => match received {
            None => {
                return Err(ContractError::NoFunds);
            },
            Some(got) => {
                if !same_denom(&got.denom, &req.denom) {
                    return Err(ContractError::InvalidDepositType);
                }
                if got.amount != req.amount {
                    return Err(ContractError::InvalidDepositAmount { correct_amount: req.amount });
                }
            },
        },
        None => {
            if let Some(got) = received {
                if got.amount != 0 {
                    return Err(ContractError::InvalidDepositAmount { correct_amount: 0 });
                }
            }
        },
    }
    if let Some(p) = previous {
        if !p.eq(sender) {
            return Err(ContractError::UnauthorizedSubmission);
        }
    }
    if !is_allowed(possible, tag) {
        return Err(ContractError::IncorrectMessage);
    }
    Ok(())
}

/// The refunds owed when `sender` asks for them: the required deposit back to
/// the author of each submission, in order.
pub open spec fn refund_check(
    admin: Seq<char>,
    sender: Seq<char>,
    required: Option<AssetView>,
    authors: Seq<Seq<char>>,
) -> Result<Seq<(Seq<char>, AssetView)>, ContractError> {
    match required {
        None => Err(ContractError::NoDepositToRefund),
        Some(dep) => if sender != admin {
            Err(ContractError::Unauthorized)
        } else {
            Ok(authors.map_values(|a: Seq<char>| (a, dep)))
        },
    }
}

pub open spec fn refunds_view(r: Result<Vec<(String, Asset)>, ContractError>) -> Result<
    Seq<(Seq<char>, AssetView)>,
    ContractError,
> {
    match r {
        Ok(v) => Ok(v@.map_values(|e: (String, Asset)| (e.0@, asset_view(e.1)))),
        Err(e) => Err(e),
    }
}

/// Plans the return of deposits: only the admin may ask, and only when a
/// deposit was required.
pub fn return_deposits(
    admin: &String,
    sender: &String,
    required: &Option<Asset>,
    authors: &Vec<String>,
) -> (r: Result<Vec<(String, Asset)>, ContractError>)
    ensures
        refunds_view(r) == refund_check(
            admin@,
            sender@,
            asset_option_view(*required),
            authors@.map_values(|a: String| a@),
        ),
{
    let dep = match required {
        Some(d) => d,
        None => {
            return Err(ContractError::NoDepositToRefund);
        },
    };
    if !sender.eq(admin) {
        return Err(ContractError::Unauthorized);
    }
    let mut out: Vec<(String, Asset)> = Vec::new();
    let mut i: usize = 0;
    while i < authors.len()
        invariant
            i <= authors@.len(),
            out@.len() == i,
            forall|j: int|
                0 <= j < i ==> (#[trigger] out@[j]).0@ == authors@[j]@ && asset_view(out@[j].1)
                    == asset_view(*dep),
        decreases authors@.len() - i,
    {
        let to = authors[i].clone();
        let amount = dep.amount;
        let denom = match &dep.denom {
            Denom::Native(n) => Denom::Native(n.clone()),
            Denom::Cw20(a) => Denom::Cw20(a.clone()),
        };
        out.push((to, Asset { denom, amount }));
        i = i + 1;
    }
    assert(out@.map_values(|e: (String, Asset)| (e.0@, asset_view(e.1))) =~= authors@.map_values(
        |a: String| a@,
    ).map_values(|a: Seq<char>| (a, asset_view(*dep))));
    Ok(out)
}

} // verus!
