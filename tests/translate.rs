use anybuf::{Anybuf, Bufany};
use gauge_adapter::amount::{new_amount_gauge_fraction, Decimal};
use gauge_adapter::authz::{parse_authz_grant_msg_bufany, parse_stargate_wire_authz};
use gauge_adapter::bank::{encode_bank_transfer_msg_anybuf, parse_bank_transfer_msg_bufany};
use gauge_adapter::coin::{coin, get_coin_from_bytes, get_coins_from_bytes};
use gauge_adapter::error::TranslationError;
use gauge_adapter::gov::parse_stargate_wire_gov;
use gauge_adapter::msg::{
    AdapterAuthzMsg, AdapterBankMsg, AdapterCw20Msgs, AdapterDistributionMsg, AdapterGovMsg,
    AdapterStakingMsg, AdapterWasmMsg, StargateWire, SubmissionMsg,
};
use gauge_adapter::router::{sample_gauge_msgs, stargate_to_anybuf};
use gauge_adapter::staking::parse_redelegate_msg_bufany;
use gauge_adapter::wasm::{rescale_cw20_msg, Cw20Call, Cw20MintMsg};
use gauge_adapter::wire::{decode, FieldWriter};

fn coin_msg(denom: &str, amount: &str) -> Anybuf {
    Anybuf::new().append_string(1, denom).append_string(2, amount)
}

fn submission(stargate: StargateWire, msg: Vec<u8>) -> SubmissionMsg {
    SubmissionMsg { stargate, msg }
}

fn percent(x: u64) -> Decimal {
    Decimal::percent(x)
}

#[test]
fn bank_send_scaled_by_fraction() {
    let payload = Anybuf::new()
        .append_string(1, "A")
        .append_string(2, "B")
        .append_repeated_message(3, &[coin_msg("denom", "1000")])
        .into_vec();
    let msg = submission(StargateWire::Bank(AdapterBankMsg::MsgSend()), payload);
    let out = stargate_to_anybuf(&"D".to_string(), &msg, percent(41)).unwrap();
    assert_eq!(out.type_url, "/cosmos.bank.v1beta1.MsgSend");
    let expected = Anybuf::new()
        .append_string(1, "A")
        .append_string(2, "B")
        .append_repeated_message(3, &[coin_msg("denom", "410")])
        .into_vec();
    assert_eq!(out.value, expected);
    let decoded = Bufany::deserialize(&out.value).unwrap();
    assert_eq!(decoded.string(1).unwrap(), "A");
    assert_eq!(decoded.string(2).unwrap(), "B");
    let coins = decoded.repeated_bytes(3).unwrap();
    assert_eq!(coins.len(), 1);
    let c = Bufany::deserialize(&coins[0]).unwrap();
    assert_eq!(c.string(1).unwrap(), "denom");
    assert_eq!(c.string(2).unwrap(), "410");
}

#[test]
fn redelegate_keeps_both_validators_at_fraction_one() {
    let payload = Anybuf::new()
        .append_string(1, "delegator")
        .append_string(2, "V1")
        .append_string(3, "V2")
        .append_message(4, &coin_msg("denom", "1000"))
        .into_vec();
    let msg = submission(StargateWire::Staking(AdapterStakingMsg::MsgRedelegate()), payload);
    let out = stargate_to_anybuf(&"dao".to_string(), &msg, Decimal::one()).unwrap();
    assert_eq!(out.type_url, "/cosmos.staking.v1beta1.MsgReDelegate");
    let expected = Anybuf::new()
        .append_string(1, "dao")
        .append_string(2, "V1")
        .append_string(3, "V2")
        .append_message(4, &coin_msg("denom", "1000"))
        .into_vec();
    assert_eq!(out.value, expected);

    let no_delegator = Anybuf::new()
        .append_string(2, "V1")
        .append_string(3, "V2")
        .append_message(4, &coin_msg("denom", "1000"))
        .into_vec();
    let parsed = parse_redelegate_msg_bufany(&no_delegator).unwrap();
    assert_eq!(parsed.delegator, "");
    assert_eq!(parsed.old, "V1");
    let msg = submission(StargateWire::Staking(AdapterStakingMsg::MsgRedelegate()), no_delegator);
    let out = stargate_to_anybuf(&"dao".to_string(), &msg, Decimal::one()).unwrap();
    assert_eq!(out.value, expected);
}

#[test]
fn delegate_scaled_by_fraction() {
    let payload = Anybuf::new()
        .append_string(1, "einstein")
        .append_string(2, "validator")
        .append_message(3, &coin_msg("juno", "1000"))
        .into_vec();
    let msg = submission(StargateWire::Staking(AdapterStakingMsg::MsgDelegate()), payload);
    let out = stargate_to_anybuf(&"dao".to_string(), &msg, percent(33)).unwrap();
    assert_eq!(out.type_url, "/cosmos.staking.v1beta1.MsgDelegate");
    let expected = Anybuf::new()
        .append_string(1, "dao")
        .append_string(2, "validator")
        .append_message(3, &coin_msg("juno", "330"))
        .into_vec();
    assert_eq!(out.value, expected);
}

#[test]
fn fund_pool_puts_sender_after_coins() {
    let payload = Anybuf::new()
        .append_repeated_message(1, &[coin_msg("ujuno", "1000"), coin_msg("uatom", "7")])
        .append_string(2, "someone")
        .into_vec();
    let msg = submission(
        StargateWire::Distribution(AdapterDistributionMsg::MsgFundCommunityPool()),
        payload,
    );
    let out = stargate_to_anybuf(&"dao".to_string(), &msg, percent(26)).unwrap();
    assert_eq!(out.type_url, "/cosmos.distribution.v1beta1.MsgFundCommunityPool");
    let expected = Anybuf::new()
        .append_repeated_message(1, &[coin_msg("ujuno", "260"), coin_msg("uatom", "1")])
        .append_string(2, "dao")
        .into_vec();
    assert_eq!(out.value, expected);
}

#[test]
fn authz_grant_and_exec() {
    let grant = Anybuf::new()
        .append_string(1, "granter")
        .append_string(2, "grantee")
        .into_vec();
    let parsed = parse_authz_grant_msg_bufany(&grant).unwrap();
    assert_eq!(parsed.granter, "granter");
    assert_eq!(parsed.grantee, "grantee");
    let msg = submission(StargateWire::Authz(AdapterAuthzMsg::MsgGrant()), grant);
    let out = stargate_to_anybuf(&"dao".to_string(), &msg, percent(50)).unwrap();
    assert_eq!(out.type_url, "/cosmos.authz.v1beta1.MsgGrant");
    let expected = Anybuf::new()
        .append_string(1, "dao")
        .append_string(2, "grantee")
        .into_vec();
    assert_eq!(out.value, expected);

    let inner = vec![vec![1u8, 2, 3], vec![], vec![9u8]];
    let exec = Anybuf::new()
        .append_string(1, "grantee")
        .append_repeated_bytes(2, &inner)
        .into_vec();
    let msg = submission(StargateWire::Authz(AdapterAuthzMsg::MsgExec()), exec);
    let out = parse_stargate_wire_authz(&"dao".to_string(), &msg, AdapterAuthzMsg::MsgExec()).unwrap();
    assert_eq!(out.type_url, "/cosmos.authz.v1beta1.MsgExec");
    let expected = Anybuf::new()
        .append_string(1, "grantee")
        .append_repeated_bytes(2, &inner)
        .into_vec();
    assert_eq!(out.value, expected);
}

#[test]
fn unsupported_tags_fail_loudly() {
    let payload = Anybuf::new().append_string(1, "x").into_vec();
    let revoke = submission(StargateWire::Authz(AdapterAuthzMsg::MsgRevoke()), payload);
    assert_eq!(
        stargate_to_anybuf(&"dao".to_string(), &revoke, Decimal::one()),
        Err(TranslationError::UnsupportedVariant)
    );
}

#[test]
fn gov_proposal_scales_deposit_only() {
    let msgs = vec![vec![7u8, 7], vec![8u8]];
    let payload = Anybuf::new()
        .append_repeated_bytes(1, &msgs)
        .append_repeated_message(2, &[coin_msg("juno", "1000000")])
        .append_string(3, "proposer")
        .append_string(4, "metadata")
        .append_string(5, "title")
        .append_string(6, "summary")
        .into_vec();
    let msg = submission(StargateWire::Gov(AdapterGovMsg::MsgSendGovProp()), payload);
    let routed = stargate_to_anybuf(&"dao".to_string(), &msg, percent(41)).unwrap();
    let out = parse_stargate_wire_gov(
        &"dao".to_string(),
        &msg,
        AdapterGovMsg::MsgSendGovProp(),
        percent(41),
    )
    .unwrap();
    assert_eq!(out.type_url, "/cosmos.gov.v1.MsgSubmitProposal");
    let expected = Anybuf::new()
        .append_repeated_bytes(1, &msgs)
        .append_repeated_message(2, &[coin_msg("juno", "410000")])
        .append_string(3, "dao")
        .append_string(4, "metadata")
        .append_string(5, "title")
        .append_string(6, "summary")
        .into_vec();
    assert_eq!(out.value, expected);
    assert_eq!(routed, out);
}

fn cw20_payload(sender: &str, contract: &str, inner: &[u8]) -> Vec<u8> {
    Anybuf::new()
        .append_string(1, sender)
        .append_string(2, contract)
        .append_bytes(3, inner)
        .into_vec()
}

#[test]
fn cw20_transfer_rescales_inner_amount() {
    let inner = br#"{"recipient":"einstein","amount":"1000"}"#;
    let msg = submission(
        StargateWire::Wasm(AdapterWasmMsg::Cw20(AdapterCw20Msgs::Transfer())),
        cw20_payload("someone", "token", inner),
    );
    let out = stargate_to_anybuf(&"dao".to_string(), &msg, percent(41)).unwrap();
    assert_eq!(out.type_url, "/cosmwasm.v1.wasm.MsgExecuteContract");
    let expected = cw20_payload("dao", "token", br#"{"recipient":"einstein","amount":"410"}"#);
    assert_eq!(out.value, expected);
}

#[test]
fn cw20_send_keeps_submission_sender() {
    let inner = br#"{"contract":"c","amount":"100","msg":"AQI="}"#;
    let msg = submission(
        StargateWire::Wasm(AdapterWasmMsg::Cw20(AdapterCw20Msgs::Send())),
        cw20_payload("someone", "token", inner),
    );
    let out = stargate_to_anybuf(&"dao".to_string(), &msg, percent(50)).unwrap();
    let expected = cw20_payload("someone", "token", br#"{"contract":"c","amount":"50","msg":"AQI="}"#);
    assert_eq!(out.value, expected);
}

#[test]
fn cw20_allowance_and_mint() {
    let inner = br#"{"spender":"s","amount":"10","expires":null}"#.to_vec();
    let out = rescale_cw20_msg(AdapterCw20Msgs::IncreaseAllowance(), &inner, percent(50)).unwrap();
    assert_eq!(out, br#"{"spender":"s","amount":"5","expires":null}"#.to_vec());
    let out = rescale_cw20_msg(AdapterCw20Msgs::DecreaseAllowance(), &inner, percent(10)).unwrap();
    assert_eq!(out, br#"{"spender":"s","amount":"1","expires":null}"#.to_vec());
    let mint = br#"{"recipient":"r","amount":"3"}"#.to_vec();
    let out = rescale_cw20_msg(AdapterCw20Msgs::Mint(), &mint, Decimal::one()).unwrap();
    assert_eq!(out, mint);
}

#[test]
fn cw20_inner_message_of_wrong_shape_is_rejected() {
    let inner = br#"{"recipient":"r","amount":"3","extra":1}"#.to_vec();
    assert_eq!(
        rescale_cw20_msg(AdapterCw20Msgs::Transfer(), &inner, Decimal::one()),
        Err(TranslationError::InvalidEncoding)
    );
    let not_json = b"not json".to_vec();
    assert_eq!(
        rescale_cw20_msg(AdapterCw20Msgs::Mint(), &not_json, Decimal::one()),
        Err(TranslationError::InvalidEncoding)
    );
}

#[test]
fn settlement_is_ordered_and_atomic() {
    let good = |recipient: &str| {
        submission(
            StargateWire::Bank(AdapterBankMsg::MsgSend()),
            Anybuf::new()
                .append_string(1, "x")
                .append_string(2, recipient)
                .append_repeated_message(3, &[coin_msg("ujuno", "1000")])
                .into_vec(),
        )
    };
    let bad = submission(StargateWire::Bank(AdapterBankMsg::MsgSend()), vec![0x12, 0x05, 0x41]);
    let reg = vec![
        ("one".to_string(), good("r1")),
        ("two".to_string(), bad),
        ("three".to_string(), good("r3")),
    ];
    let dao = "dao".to_string();
    let all = vec![
        ("one".to_string(), percent(41)),
        ("two".to_string(), percent(33)),
        ("three".to_string(), percent(26)),
    ];
    assert_eq!(
        sample_gauge_msgs(&dao, &reg, &all),
        Err(TranslationError::MalformedPayload)
    );
    let ok = vec![("three".to_string(), percent(26)), ("one".to_string(), percent(41))];
    let msgs = sample_gauge_msgs(&dao, &reg, &ok).unwrap();
    assert_eq!(msgs.len(), 2);
    let first = Bufany::deserialize(&msgs[0].value).unwrap();
    assert_eq!(first.string(2).unwrap(), "r3");
    let second = Bufany::deserialize(&msgs[1].value).unwrap();
    assert_eq!(second.string(2).unwrap(), "r1");
    let missing = vec![("four".to_string(), percent(10))];
    assert_eq!(sample_gauge_msgs(&dao, &reg, &missing), Err(TranslationError::NotFound));
    assert_eq!(sample_gauge_msgs(&dao, &reg, &vec![]).unwrap().len(), 0);
}

#[test]
fn scaling_rounds_down() {
    assert_eq!(new_amount_gauge_fraction(1000, percent(41)), Ok(410));
    assert_eq!(new_amount_gauge_fraction(999, percent(50)), Ok(499));
    assert_eq!(new_amount_gauge_fraction(1, Decimal::raw(999_999_999_999_999_999)), Ok(0));
    assert_eq!(new_amount_gauge_fraction(0, Decimal::one()), Ok(0));
    assert_eq!(new_amount_gauge_fraction(150_000_000_000, percent(33)), Ok(49_500_000_000));
}

#[test]
fn scaling_overflow_is_reported() {
    assert_eq!(new_amount_gauge_fraction(u128::MAX, Decimal::one()), Ok(u128::MAX));
    assert_eq!(
        new_amount_gauge_fraction(u128::MAX, Decimal::raw(1_000_000_000_000_000_001)),
        Err(TranslationError::Overflow)
    );
    assert_eq!(
        new_amount_gauge_fraction(u128::MAX / 2 + 1, percent(200)),
        Err(TranslationError::Overflow)
    );
    // The exact product is u128::MAX + 0.5: it does not fit before rounding.
    assert_eq!(
        new_amount_gauge_fraction(194447066811964836264785489961010406546, percent(175)),
        Err(TranslationError::Overflow)
    );
    assert_eq!(
        new_amount_gauge_fraction(194447066811964836264785489961010406545, percent(175)),
        Ok(340282366920938463463374607431768211453)
    );
    let payload = Anybuf::new()
        .append_string(1, "A")
        .append_string(2, "B")
        .append_repeated_message(3, &[coin_msg("denom", &u128::MAX.to_string())])
        .into_vec();
    let msg = submission(StargateWire::Bank(AdapterBankMsg::MsgSend()), payload);
    assert_eq!(
        stargate_to_anybuf(&"A".to_string(), &msg, percent(101)),
        Err(TranslationError::Overflow)
    );
}

#[test]
fn field_reader_errors() {
    assert_eq!(decode(&[0x0a, 0x05, 0x41]).err(), Some(TranslationError::MalformedPayload));
    let msg = Anybuf::new()
        .append_string(1, "first")
        .append_string(1, "second")
        .append_bytes(2, vec![0xff, 0xfe])
        .into_vec();
    let view = decode(&msg).unwrap();
    assert_eq!(view.string(1), Ok("first".to_string()));
    assert_eq!(view.repeated_bytes(1).unwrap(), vec![b"first".to_vec(), b"second".to_vec()]);
    assert_eq!(view.string(2), Err(TranslationError::InvalidEncoding));
    assert_eq!(view.bytes(2), Ok(vec![0xff, 0xfe]));
    assert_eq!(view.string(3), Err(TranslationError::MissingField));
    assert_eq!(view.bytes(3), Err(TranslationError::MissingField));
    assert_eq!(view.repeated_bytes(3).unwrap().len(), 0);
}

#[test]
fn field_writer_matches_layout() {
    let nested = FieldWriter::new().append_string(1, "d").append_string(2, "5");
    let out = FieldWriter::new()
        .append_string(1, "abc")
        .append_string(2, "")
        .append_message(3, &nested)
        .append_repeated_message(4, &vec![FieldWriter::new(), FieldWriter::new().append_string(1, "z")])
        .into_bytes();
    let expected = Anybuf::new()
        .append_string(1, "abc")
        .append_message(3, &Anybuf::new().append_string(1, "d").append_string(2, "5"))
        .append_repeated_message(4, &[Anybuf::new(), Anybuf::new().append_string(1, "z")])
        .into_vec();
    assert_eq!(out, expected);
    assert_eq!(out[0], 0x0a);
    assert_eq!(out[1], 3);
}

#[test]
fn coins_read_back() {
    let bytes = coin_msg("ujuno", "+42").into_vec();
    assert_eq!(get_coin_from_bytes(&bytes), Ok(coin(42, "ujuno".to_string())));
    let bad_amount = coin_msg("ujuno", "4x2").into_vec();
    assert_eq!(get_coin_from_bytes(&bad_amount), Err(TranslationError::InvalidEncoding));
    let too_big = coin_msg("ujuno", "340282366920938463463374607431768211456").into_vec();
    assert_eq!(get_coin_from_bytes(&too_big), Err(TranslationError::InvalidEncoding));
    let no_amount = Anybuf::new().append_string(1, "ujuno").into_vec();
    assert_eq!(get_coin_from_bytes(&no_amount), Err(TranslationError::MissingField));
    let coins = get_coins_from_bytes(vec![
        coin_msg("a", "1").into_vec(),
        coin_msg("b", "340282366920938463463374607431768211455").into_vec(),
    ])
    .unwrap();
    assert_eq!(coins, vec![coin(1, "a".to_string()), coin(u128::MAX, "b".to_string())]);
    assert_eq!(get_coins_from_bytes(vec![]).unwrap().len(), 0);
}

#[test]
fn bank_parse_and_encode() {
    let payload = Anybuf::new()
        .append_string(1, "s")
        .append_string(2, "rcpt")
        .append_repeated_message(3, &[coin_msg("a", "10"), coin_msg("b", "20")])
        .into_vec();
    let parsed = parse_bank_transfer_msg_bufany(&payload).unwrap();
    assert_eq!(parsed.recipient, "rcpt");
    assert_eq!(parsed.coins, vec![coin(10, "a".to_string()), coin(20, "b".to_string())]);
    assert_eq!(parsed.sender, "s");
    let out = encode_bank_transfer_msg_anybuf(
        &"s".to_string(),
        &parsed.recipient,
        &parsed.coins,
        Decimal::one(),
    )
    .unwrap();
    assert_eq!(out.value, payload);
    let no_recipient = Anybuf::new().append_string(1, "s").into_vec();
    assert_eq!(
        parse_bank_transfer_msg_bufany(&no_recipient).err(),
        Some(TranslationError::MissingField)
    );
}

#[test]
fn cw20_call_rescaled_checks_kind() {
    let mint = Cw20Call::Mint(Cw20MintMsg { recipient: "r".to_string(), amount: 1000 });
    assert_eq!(
        mint.clone().rescaled(AdapterCw20Msgs::Mint(), percent(41)),
        Ok(Cw20Call::Mint(Cw20MintMsg { recipient: "r".to_string(), amount: 410 }))
    );
    assert_eq!(
        mint.clone().rescaled(AdapterCw20Msgs::Transfer(), percent(41)),
        Err(TranslationError::InvalidEncoding)
    );
    let big = Cw20Call::Mint(Cw20MintMsg { recipient: "r".to_string(), amount: u128::MAX });
    assert_eq!(big.rescaled(AdapterCw20Msgs::Mint(), percent(101)), Err(TranslationError::Overflow));
}

#[test]
fn malformed_payloads_fail_every_family() {
    let truncated = vec![0x0a, 0x05, 0x41];
    let tags = [
        StargateWire::Bank(AdapterBankMsg::MsgSend()),
        StargateWire::Distribution(AdapterDistributionMsg::MsgFundCommunityPool()),
        StargateWire::Staking(AdapterStakingMsg::MsgDelegate()),
        StargateWire::Staking(AdapterStakingMsg::MsgRedelegate()),
        StargateWire::Wasm(AdapterWasmMsg::Cw20(AdapterCw20Msgs::Send())),
        StargateWire::Authz(AdapterAuthzMsg::MsgExec()),
        StargateWire::Authz(AdapterAuthzMsg::MsgGrant()),
        StargateWire::Gov(AdapterGovMsg::MsgSendGovProp()),
    ];
    for tag in tags {
        let msg = submission(tag, truncated.clone());
        assert_eq!(
            stargate_to_anybuf(&"dao".to_string(), &msg, Decimal::one()),
            Err(TranslationError::MalformedPayload)
        );
    }
    let bad_coin = Anybuf::new()
        .append_string(1, "A")
        .append_string(2, "B")
        .append_repeated_bytes(3, &[vec![0x12u8, 0x09, 0x31]])
        .into_vec();
    assert_eq!(
        parse_bank_transfer_msg_bufany(&bad_coin).err(),
        Some(TranslationError::MalformedPayload)
    );
}

#[test]
fn payloads_with_other_wire_types() {
    // A varint field the transfer does not read is accepted and left out.
    let payload = Anybuf::new()
        .append_string(1, "A")
        .append_string(2, "B")
        .append_repeated_message(3, &[coin_msg("denom", "1000")])
        .append_uint64(7, 5)
        .into_vec();
    let msg = submission(StargateWire::Bank(AdapterBankMsg::MsgSend()), payload);
    let out = stargate_to_anybuf(&"D".to_string(), &msg, percent(41)).unwrap();
    let expected = Anybuf::new()
        .append_string(1, "A")
        .append_string(2, "B")
        .append_repeated_message(3, &[coin_msg("denom", "410")])
        .into_vec();
    assert_eq!(out.value, expected);

    // A varint where the recipient should be is not length-delimited.
    let wrong_type = Anybuf::new()
        .append_string(1, "A")
        .append_uint64(2, 9)
        .append_repeated_message(3, &[coin_msg("denom", "1000")])
        .into_vec();
    assert_eq!(
        parse_bank_transfer_msg_bufany(&wrong_type).err(),
        Some(TranslationError::MalformedPayload)
    );

    // A length written as a non-minimal varint is read like any other.
    let mut non_minimal = vec![0x0a, 0x81, 0x00, b'A', 0x12, 0x01, b'B'];
    non_minimal.extend(Anybuf::new().append_repeated_message(3, &[coin_msg("d", "8")]).into_vec());
    let parsed = parse_bank_transfer_msg_bufany(&non_minimal).unwrap();
    assert_eq!(parsed.sender, "A");
    assert_eq!(parsed.recipient, "B");
    assert_eq!(parsed.coins, vec![coin(8, "d".to_string())]);

    // Fixed-width fields are accepted and skipped.
    let mut fixed = vec![0x09, 1, 2, 3, 4, 5, 6, 7, 8, 0x35, 1, 2, 3, 4];
    fixed.extend(Anybuf::new().append_string(2, "validator").append_message(3, &coin_msg("d", "10")).into_vec());
    let msg = submission(StargateWire::Staking(AdapterStakingMsg::MsgDelegate()), fixed);
    let out = stargate_to_anybuf(&"dao".to_string(), &msg, Decimal::one()).unwrap();
    let expected = Anybuf::new()
        .append_string(1, "dao")
        .append_string(2, "validator")
        .append_message(3, &coin_msg("d", "10"))
        .into_vec();
    assert_eq!(out.value, expected);
}
