use gauge_adapter::amount::Decimal;
use gauge_adapter::entry_judging::{
    EntryJudgingVote, EntryJudgingVotes, MultipleChoiceOption, MultipleChoiceOptionType,
    MultipleChoiceOptions, PercentageThreshold, ThresholdError, VotingStrategy,
};

#[test]
fn quorum_validation() {
    let majority = VotingStrategy::SingleChoice { quorum: PercentageThreshold::Majority {} };
    assert_eq!(majority.validate(), Ok(()));
    assert_eq!(majority.get_quorum(), PercentageThreshold::Majority {});
    let half = VotingStrategy::SingleChoice { quorum: PercentageThreshold::Percent(Decimal::percent(50)) };
    assert_eq!(half.validate(), Ok(()));
    assert_eq!(half.get_quorum(), PercentageThreshold::Percent(Decimal::percent(50)));
    let zero = VotingStrategy::SingleChoice { quorum: PercentageThreshold::Percent(Decimal::percent(0)) };
    assert_eq!(zero.validate(), Err(ThresholdError::ZeroThreshold {}));
    let over = VotingStrategy::SingleChoice { quorum: PercentageThreshold::Percent(Decimal::percent(101)) };
    assert_eq!(over.validate(), Err(ThresholdError::UnreachableThreshold {}));
    let all = VotingStrategy::SingleChoice { quorum: PercentageThreshold::Percent(Decimal::one()) };
    assert_eq!(all.validate(), Ok(()));
}

#[test]
fn tally_add_and_remove() {
    let mut votes = EntryJudgingVotes::zero(3);
    assert_eq!(votes.vote_weights, vec![0, 0, 0]);
    let v = EntryJudgingVote { option_id: 1, vote: 5 };
    votes.add_vote(v, 7).unwrap();
    votes.add_vote(v, 3).unwrap();
    assert_eq!(votes.vote_weights, vec![0, 10, 0]);
    assert_eq!(votes.total(), Some(10));
    assert!(votes.remove_vote(v, 11).is_err());
    votes.remove_vote(v, 4).unwrap();
    assert_eq!(votes.vote_weights, vec![0, 6, 0]);
    assert!(votes.add_vote(v, u128::MAX).is_err());
    let full = EntryJudgingVotes { vote_weights: vec![u128::MAX, 1] };
    assert_eq!(full.total(), None);
}

#[test]
fn choices_checked_with_none_of_the_above() {
    let option = |t: &str| MultipleChoiceOption {
        title: t.to_string(),
        description: format!("about {}", t),
        msgs: vec![cosmwasm_std::CosmosMsg::Bank(cosmwasm_std::BankMsg::Burn {
            amount: cosmwasm_std::coins(1, "ujuno"),
        })],
    };
    let one = MultipleChoiceOptions { options: vec![option("a")] };
    assert!(one.into_checked().is_err());
    let many = MultipleChoiceOptions { options: (0..21).map(|i| option(&i.to_string())).collect() };
    assert!(many.into_checked().is_err());
    let two = MultipleChoiceOptions { options: vec![option("a"), option("b")] };
    let checked = two.into_checked().unwrap();
    assert_eq!(checked.options.len(), 3);
    assert_eq!(checked.options[0].index, 0);
    assert_eq!(checked.options[0].title, "a");
    assert_eq!(checked.options[1].index, 1);
    assert_eq!(checked.options[1].description, "about b");
    assert_eq!(checked.options[1].msgs.len(), 1);
    assert_eq!(checked.options[2].index, 2);
    assert_eq!(checked.options[2].option_type, MultipleChoiceOptionType::NoneOfTheAbove);
    assert_eq!(checked.options[2].title, "None of the above");
    assert!(checked.options[2].msgs.is_empty());
    assert_eq!(checked.options[2].vote_count, 0);
}
