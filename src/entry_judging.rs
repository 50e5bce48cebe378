//! Voting strategies and tallies of entry-judging proposals.
use vstd::prelude::*;

use crate::amount::{Decimal, DECIMAL_FRACTIONAL};

verus! {

/// The share of votes needed: a simple majority, or a fixed percentage.
#[derive(Debug, Clone, Copy, PartialEq, Eq, Structural)]
pub enum PercentageThreshold {
    Majority {},
    Percent(Decimal),
}

/// Why a threshold cannot be used.
#[derive(Debug, Clone, Copy, PartialEq, Eq, Structural)]
pub enum ThresholdError {
    /// The percentage is above 100%.
    UnreachableThreshold {},
    /// The percentage is zero.
    ZeroThreshold {},
}

/// What checking a quorum gives.
pub open spec fn quorum_check(quorum: PercentageThreshold) -> Result<(), ThresholdError> {
    match quorum {
        PercentageThreshold::Majority {} => Ok(()),
        PercentageThreshold::Percent(p) => if p.atomics == 0 {
            Err(ThresholdError::ZeroThreshold {})
        } else if p.atomics > DECIMAL_FRACTIONAL {
            Err(ThresholdError::UnreachableThreshold {})
        } else {
            Ok(())
        },
    }
}

/// Checks that a quorum can be reached: a percentage must be above zero and
/// at most 100%.
pub fn validate_quorum(quorum: &PercentageThreshold) -> (r: Result<(), ThresholdError>)
    ensures
        r == quorum_check(*quorum),
{
    match quorum {
        PercentageThreshold::Majority {} => Ok(()),
        PercentageThreshold::Percent(p) => {
            if p.atomics == 0 {
                Err(ThresholdError::ZeroThreshold {})
            } else if p.atomics > DECIMAL_FRACTIONAL {
                Err(ThresholdError::UnreachableThreshold {})
            } else {
                Ok(())
            }
        },
    }
}

/// Determines how many choices may be selected.
#[derive(Debug, Clone, Copy, PartialEq, Eq, Structural)]
pub enum VotingStrategy {
    SingleChoice { quorum: PercentageThreshold },
}

impl VotingStrategy {
    /// Checks the strategy's quorum.
    pub fn validate(&self) -> (r: Result<(), ThresholdError>)
        ensures
            r == quorum_check(self.get_quorum_spec()),
    {
        match self {
            VotingStrategy::SingleChoice { quorum } => validate_quorum(quorum),
        }
    }

    pub open spec fn get_quorum_spec(&self) -> PercentageThreshold {
        match self {
            VotingStrategy::SingleChoice { quorum } => *quorum,
        }
    }

    /// The strategy's quorum.
    pub fn get_quorum(&self) -> (r: PercentageThreshold)
        ensures
            r == self.get_quorum_spec(),
    {
        match self {
            VotingStrategy::SingleChoice { quorum } => *quorum,
        }
    }
}

/// The kind of a choice. `NoneOfTheAbove` is the choice of none of the
/// others; it still counts toward quorum, so that a proposal whose options
/// are all bad can be voted down.
#[derive(Debug, Clone, Copy, PartialEq, Eq, Structural)]
pub enum MultipleChoiceOptionType {
    Standard,
    NoneOfTheAbove,
}

#[verifier::external_type_specification]
#[verifier::external_body]
#[verifier::reject_recursive_types(T)]
pub struct ExCosmosMsg<T>(cosmwasm_std::CosmosMsg<T>);

#[verifier::external_type_specification]
#[verifier::external_body]
pub struct ExEmpty(cosmwasm_std::Empty);

/// The most choices a proposal may offer, the added "none of the above"
/// choice not counted.
pub const MAX_NUM_CHOICES: u32 = 20;

/// An unchecked choice: its text and the messages run if it wins.
#[derive(Debug, Clone, PartialEq)]
pub struct MultipleChoiceOption {
    pub title: String,
    pub description: String,
    pub msgs: Vec<cosmwasm_std::CosmosMsg>,
}

/// Unchecked choices.
#[derive(Debug, Clone, PartialEq)]
pub struct MultipleChoiceOptions {
    pub options: Vec<MultipleChoiceOption>,
}

/// A checked choice, with its index in the tally and its count of votes.
#[derive(Debug, Clone, PartialEq)]
pub struct CheckedMultipleChoiceOption {
    pub index: u32,
    pub option_type: MultipleChoiceOptionType,
    pub title: String,
    pub description: String,
    pub msgs: Vec<cosmwasm_std::CosmosMsg>,
    pub vote_count: u128,
}

/// Checked choices, ready for voting.
#[derive(Debug, Clone, PartialEq)]
pub struct CheckedMultipleChoiceOptions {
    pub options: Vec<CheckedMultipleChoiceOption>,
}

/// The choices are too few or too many.
#[derive(Debug, Clone, Copy, PartialEq, Eq, Structural)]
pub struct WrongNumberOfChoices {}

/// `c` is the checked form of `o` at index `i`.
pub open spec fn checked_from(c: CheckedMultipleChoiceOption, o: MultipleChoiceOption, i: int) -> bool {
    &&& c.index == i
    &&& c.option_type == MultipleChoiceOptionType::Standard
    &&& c.title@ == o.title@
    &&& c.description@ == o.description@
    &&& c.msgs@ == o.msgs@
    &&& c.vote_count == 0
}

/// The text of the added choice.
pub open spec fn none_of_the_above() -> Seq<char> {
    "None of the above"@
}

impl MultipleChoiceOptions {
    /// Checks the number of choices, numbers them, and adds a last choice of
    /// none of them.
    pub fn into_checked(self) -> (r: Result<CheckedMultipleChoiceOptions, WrongNumberOfChoices>)
        ensures
            self.options@.len() < 2 || self.options@.len() > MAX_NUM_CHOICES ==> r is Err,
            2 <= self.options@.len() <= MAX_NUM_CHOICES ==> (r matches Ok(c) && {
                let n = self.options@.len() as int;
                &&& c.options@.len() == n + 1
                &&& forall|i: int| 0 <= i < n ==> checked_from(
                    #[trigger] c.options@[i],
                    self.options@[i],
                    i,
                )
                &&& c.options@[n].index == n
                &&& c.options@[n].option_type == MultipleChoiceOptionType::NoneOfTheAbove
                &&& c.options@[n].title@ == none_of_the_above()
                &&& c.options@[n].description@ == none_of_the_above()
                &&& c.options@[n].msgs@.len() == 0
                &&& c.options@[n].vote_count == 0
            }),
    {
        let n = self.options.len();
        if n < 2 || n > MAX_NUM_CHOICES as usize {
            return Err(WrongNumberOfChoices {});
        }
        let ghost original = self.options@;
        let mut rest = self.options;
        let mut reversed: Vec<MultipleChoiceOption> = Vec::new();
        while rest.len() > 0
            invariant
                rest@.len() + reversed@.len() == n,
                forall|i: int| 0 <= i < rest@.len() ==> rest@[i] == original[i],
                forall|j: int|
                    0 <= j < reversed@.len() ==> reversed@[j] == original[n - 1 - j],
            decreases rest@.len(),
        {
            let o = rest.pop().unwrap();
            reversed.push(o);
        }
        let mut checked: Vec<CheckedMultipleChoiceOption> = Vec::new();
        while reversed.len() > 0
            invariant
                reversed@.len() + checked@.len() == n,
                n <= MAX_NUM_CHOICES,
                forall|j: int|
                    0 <= j < reversed@.len() ==> reversed@[j] == original[n - 1 - j],
                forall|i: int|
                    0 <= i < checked@.len() ==> checked_from(#[trigger] checked@[i], original[i], i),
            decreases reversed@.len(),
        {
            let choice = reversed.pop().unwrap();
            let index = checked.len() as u32;
            checked.push(
                CheckedMultipleChoiceOption {
                    index,
                    option_type: MultipleChoiceOptionType::Standard,
                    description: choice.description,
                    msgs: choice.msgs,
                    vote_count: 0,
                    title: choice.title,
                },
            );
        }
        let none_option = CheckedMultipleChoiceOption {
            index: n as u32,
            option_type: MultipleChoiceOptionType::NoneOfTheAbove,
            description: "None of the above".to_owned(),
            msgs: Vec::new(),
            vote_count: 0,
            title: "None of the above".to_owned(),
        };
        checked.push(none_option);
        Ok(CheckedMultipleChoiceOptions { options: checked })
    }
}

/// A vote: the option chosen and the points given to it.
#[derive(Debug, Clone, Copy, PartialEq, Eq, Structural)]
pub struct EntryJudgingVote {
    pub option_id: u32,
    pub vote: u128,
}

/// The weight of the votes for each option, by option index.
#[derive(Debug, Clone, PartialEq, Eq)]
pub struct EntryJudgingVotes {
    pub vote_weights: Vec<u128>,
}

/// The sum of the weights `ws`.
pub open spec fn weights_sum(ws: Seq<u128>) -> nat
    decreases ws.len(),
{
    if ws.len() == 0 {
        0
    } else {
        weights_sum(ws.drop_last()) + ws.last() as nat
    }
}

/// Adding or removing votes overflowed or went below zero.
#[derive(Debug, Clone, Copy, PartialEq, Eq, Structural)]
pub struct TallyOverflow {}

impl EntryJudgingVotes {
    /// The sum of all vote weights, where it fits in 128 bits.
    pub fn total(&self) -> (r: Option<u128>)
        ensures
            r == (if weights_sum(self.vote_weights@) <= u128::MAX {
                Some(weights_sum(self.vote_weights@) as u128)
            } else {
                None::<u128>
            }),
    {
        let ghost ws = self.vote_weights@;
        let mut sum: u128 = 0;
        let mut i: usize = 0;
        assert(ws.subrange(0, 0) =~= Seq::<u128>::empty());
        while i < self.vote_weights.len()
            invariant
                i <= ws.len(),
                ws == self.vote_weights@,
                sum as nat == weights_sum(ws.subrange(0, i as int)),
            decreases ws.len() - i,
        {
            let w = self.vote_weights[i];
            let ghost pre = ws.subrange(0, i + 1);
            assert(pre.drop_last() =~= ws.subrange(0, i as int));
            if sum > u128::MAX - w {
                proof {
                    lemma_weights_sum_prefix(ws, i + 1);
                }
                return None;
            }
            sum = sum + w;
            i = i + 1;
        }
        assert(ws.subrange(0, ws.len() as int) =~= ws);
        Some(sum)
    }

    /// Adds `weight` to the tally of the voted option.
    pub fn add_vote(&mut self, vote: EntryJudgingVote, weight: u128) -> (r: Result<(), TallyOverflow>)
        requires
            (vote.option_id as int) < old(self).vote_weights@.len(),
        ensures
            old(self).vote_weights@[vote.option_id as int] + weight <= u128::MAX ==> r is Ok
                && final(self).vote_weights@ == old(self).vote_weights@.update(
                vote.option_id as int,
                (old(self).vote_weights@[vote.option_id as int] + weight) as u128,
            ),
            old(self).vote_weights@[vote.option_id as int] + weight > u128::MAX ==> r is Err
                && final(self).vote_weights@ == old(self).vote_weights@,
    {
        let i = vote.option_id as usize;
        let w = self.vote_weights[i];
        if w > u128::MAX - weight {
            return Err(TallyOverflow {});
        }
        self.vote_weights.set(i, w + weight);
        Ok(())
    }

    /// Takes `weight` from the tally of the voted option.
    pub fn remove_vote(&mut self, vote: EntryJudgingVote, weight: u128) -> (r: Result<
        (),
        TallyOverflow,
    >)
        requires
            (vote.option_id as int) < old(self).vote_weights@.len(),
        ensures
            weight <= old(self).vote_weights@[vote.option_id as int] ==> r is Ok
                && final(self).vote_weights@ == old(self).vote_weights@.update(
                vote.option_id as int,
                (old(self).vote_weights@[vote.option_id as int] - weight) as u128,
            ),
            weight > old(self).vote_weights@[vote.option_id as int] ==> r is Err
                && final(self).vote_weights@ == old(self).vote_weights@,
    {
        let i = vote.option_id as usize;
        let w = self.vote_weights[i];
        if w < weight {
            return Err(TallyOverflow {});
        }
        self.vote_weights.set(i, w - weight);
        Ok(())
    }

    /// A tally of zero for each of `num_choices` options.
    pub fn zero(num_choices: usize) -> (r: Self)
        ensures
            r.vote_weights@ == Seq::new(num_choices as nat, |i: int| 0u128),
    {
        let mut vote_weights: Vec<u128> = Vec::new();
        let mut i: usize = 0;
        while i < num_choices
            invariant
                i <= num_choices,
                vote_weights@ =~= Seq::new(i as nat, |j: int| 0u128),
            decreases num_choices - i,
        {
            vote_weights.push(0);
            i = i + 1;
        }
        EntryJudgingVotes { vote_weights }
    }
}

proof fn lemma_weights_sum_prefix(ws: Seq<u128>, k: int)
    requires
        0 <= k <= ws.len(),
    ensures
        weights_sum(ws.subrange(0, k)) <= weights_sum(ws),
    decreases ws.len() - k,
{
    if k < ws.len() {
        let next = ws.subrange(0, k + 1);
        assert(next.drop_last() =~= ws.subrange(0, k));
        lemma_weights_sum_prefix(ws, k + 1);
    } else {
        assert(ws.subrange(0, k) =~= ws);
    }
}

} // verus!
