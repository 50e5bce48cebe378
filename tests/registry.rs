use gauge_adapter::msg::{AdapterBankMsg, AdapterStakingMsg, PossibleMsg, StargateWire};
use gauge_adapter::registry::{check_submission, is_allowed, return_deposits, Asset, ContractError, Denom};

fn juno(amount: u128) -> Asset {
    Asset { denom: Denom::Native("juno".to_string()), amount }
}

fn allow_list() -> Vec<PossibleMsg> {
    vec![PossibleMsg { stargate: StargateWire::Bank(AdapterBankMsg::MsgSend()), max_amount: Some(1000) }]
}

#[test]
fn submission_deposit_rules() {
    let send = StargateWire::Bank(AdapterBankMsg::MsgSend());
    let me = "me".to_string();
    let possible = allow_list();
    assert_eq!(check_submission(&Some(juno(1000)), &Some(juno(1000)), &None, &me, &possible, send), Ok(()));
    assert_eq!(
        check_submission(&Some(juno(1000)), &None, &None, &me, &possible, send),
        Err(ContractError::NoFunds)
    );
    assert_eq!(
        check_submission(&Some(juno(1000)), &Some(juno(999)), &None, &me, &possible, send),
        Err(ContractError::InvalidDepositAmount { correct_amount: 1000 })
    );
    let wynd = Asset { denom: Denom::Cw20("wynd".to_string()), amount: 1000 };
    assert_eq!(
        check_submission(&Some(juno(1000)), &Some(wynd), &None, &me, &possible, send),
        Err(ContractError::InvalidDepositType)
    );
    assert_eq!(
        check_submission(&None, &Some(juno(1)), &None, &me, &possible, send),
        Err(ContractError::InvalidDepositAmount { correct_amount: 0 })
    );
    assert_eq!(check_submission(&None, &Some(juno(0)), &None, &me, &possible, send), Ok(()));
}

#[test]
fn submission_owner_and_allow_list() {
    let send = StargateWire::Bank(AdapterBankMsg::MsgSend());
    let me = "me".to_string();
    let possible = allow_list();
    assert_eq!(check_submission(&None, &None, &Some("me".to_string()), &me, &possible, send), Ok(()));
    assert_eq!(
        check_submission(&None, &None, &Some("other".to_string()), &me, &possible, send),
        Err(ContractError::UnauthorizedSubmission)
    );
    let delegate = StargateWire::Staking(AdapterStakingMsg::MsgDelegate());
    assert!(!is_allowed(&possible, delegate));
    assert_eq!(
        check_submission(&None, &None, &None, &me, &possible, delegate),
        Err(ContractError::IncorrectMessage)
    );
}

#[test]
fn deposits_returned_by_admin_only() {
    let admin = "admin".to_string();
    let authors = vec!["a".to_string(), "b".to_string()];
    assert_eq!(
        return_deposits(&admin, &admin, &None, &authors),
        Err(ContractError::NoDepositToRefund)
    );
    assert_eq!(
        return_deposits(&admin, &"user".to_string(), &Some(juno(1000)), &authors),
        Err(ContractError::Unauthorized)
    );
    let refunds = return_deposits(&admin, &admin, &Some(juno(1000)), &authors).unwrap();
    assert_eq!(refunds, vec![("a".to_string(), juno(1000)), ("b".to_string(), juno(1000))]);
}
