//! Delegation and redelegation: the staking family. Each carries one coin as
//! a nested message.
use vstd::prelude::*;
use vstd::utf8::*;

use crate::amount::{
    lemma_scaled_one, new_amount_gauge_fraction, scaled, Decimal, DECIMAL_FRACTIONAL,
};
use crate::coin::{
    coin_at, coin_bytes, encode_coin, get_coin_from_bytes, lemma_coin_round_trip,
    lemma_text_of_utf8, lemma_utf8_nonempty, Coin, CoinView,
};
use crate::error::TranslationError;
use crate::msg::{stargate, AdapterStakingMsg, CanonicalMessage, CanonicalView, SubmissionMsg};
use crate::wire::{
    appended, bufany_parses, bytes_value, decode, lemma_values_appended, lemma_values_in_wire,
    lemma_wire_ok_appended, text_value, usize_limit, values_at, values_in, wire_of, FieldWriter,
    WireField,
};

verus! {

pub open spec fn delegate_url() -> Seq<char> {
    "/cosmos.staking.v1beta1.MsgDelegate"@
}

pub open spec fn redelegate_url() -> Seq<char> {
    "/cosmos.staking.v1beta1.MsgReDelegate"@
}

/// What a delegation submission holds: its coin and its validator.
#[derive(Debug, Clone, PartialEq, Eq)]
pub struct ParseStakingSubmissionResponse {
    pub amount: Coin,
    pub recipient: String,
}

impl View for ParseStakingSubmissionResponse {
    type V = (CoinView, Seq<char>);

    open spec fn view(&self) -> (CoinView, Seq<char>) {
        (self.amount@, self.recipient@)
    }
}

/// What a redelegation submission holds.
#[derive(Debug, Clone, PartialEq, Eq)]
pub struct ParseRedelegationSubmissionResponse {
    pub delegator: String,
    pub amount: Coin,
    pub old: String,
    pub new: String,
}

impl View for ParseRedelegationSubmissionResponse {
    type V = (Seq<char>, CoinView, Seq<char>, Seq<char>);

    open spec fn view(&self) -> (Seq<char>, CoinView, Seq<char>, Seq<char>) {
        (self.delegator@, self.amount@, self.old@, self.new@)
    }
}

/// The coin of field `n`.
pub open spec fn coin_field(fs: Seq<u8>, n: u32) -> Result<CoinView, TranslationError> {
    match bytes_value(fs, n) {
        Err(e) => Err(e),
        Ok(b) => coin_at(b),
    }
}

/// What a well-formed delegation payload holds: the validator is field 2,
/// the coin field 3.
pub open spec fn delegate_of(payload: Seq<u8>) -> Result<(CoinView, Seq<char>), TranslationError> {
    let fs = payload;
    match text_value(fs, 2) {
        Err(e) => Err(e),
        Ok(validator) => match coin_field(fs, 3) {
            Err(e) => Err(e),
            Ok(c) => Ok((c, validator)),
        },
    }
}

/// What a well-formed redelegation payload holds: delegator 1, source
/// validator 2, destination validator 3, coin 4. The delegator is not needed
/// for a translation: where field 1 is absent or not text, it reads as empty.
pub open spec fn redelegate_of(payload: Seq<u8>) -> Result<
    (Seq<char>, CoinView, Seq<char>, Seq<char>),
    TranslationError,
> {
    let fs = payload;
    let delegator = match text_value(fs, 1) {
        Ok(d) => d,
        Err(_) => Seq::empty(),
    };
    match text_value(fs, 2) {
        Err(e) => Err(e),
        Ok(old) => match text_value(fs, 3) {
            Err(e) => Err(e),
            Ok(new) => match coin_field(fs, 4) {
                Err(e) => Err(e),
                Ok(c) => Ok((delegator, c, old, new)),
            },
        },
    }
}

/// The fields of a delegation: delegator 1, validator 2, coin 3.
pub open spec fn delegate_fields(sender: Seq<char>, validator: Seq<char>, coin: Seq<u8>) -> Seq<
    WireField,
> {
    appended(
        appended(appended(Seq::empty(), 1, encode_utf8(sender)), 2, encode_utf8(validator)),
        3,
        coin,
    )
}

/// The fields of a redelegation: delegator 1, source 2, destination 3, coin 4.
pub open spec fn redelegate_fields(
    sender: Seq<char>,
    old: Seq<char>,
    new: Seq<char>,
    coin: Seq<u8>,
) -> Seq<WireField> {
    appended(
        appended(
            appended(appended(Seq::empty(), 1, encode_utf8(sender)), 2, encode_utf8(old)),
            3,
            encode_utf8(new),
        ),
        4,
        coin,
    )
}

pub open spec fn delegate_message(
    coin: CoinView,
    sender: Seq<char>,
    validator: Seq<char>,
    fraction: Decimal,
) -> Result<CanonicalView, TranslationError> {
    match scaled(coin.1, fraction) {
        Err(e) => Err(e),
        Ok(a) => Ok((delegate_url(), wire_of(delegate_fields(sender, validator, coin_bytes(coin.0, a))))),
    }
}

pub open spec fn redelegate_message(
    coin: CoinView,
    sender: Seq<char>,
    old: Seq<char>,
    new: Seq<char>,
    fraction: Decimal,
) -> Result<CanonicalView, TranslationError> {
    match scaled(coin.1, fraction) {
        Err(e) => Err(e),
        Ok(a) => Ok(
            (redelegate_url(), wire_of(redelegate_fields(sender, old, new, coin_bytes(coin.0, a)))),
        ),
    }
}

/// A staking submission re-sent from `dao`, its coin scaled by `fraction`.
pub open spec fn staking_translation(
    dao: Seq<char>,
    payload: Seq<u8>,
    stake_msg: AdapterStakingMsg,
    fraction: Decimal,
) -> Result<CanonicalView, TranslationError> {
    if !bufany_parses(payload) {
        Err(TranslationError::MalformedPayload)
    } else {
        staking_message(dao, payload, stake_msg, fraction)
    }
}

/// The staking message for a payload of the model.
pub open spec fn staking_message(
    dao: Seq<char>,
    payload: Seq<u8>,
    stake_msg: AdapterStakingMsg,
    fraction: Decimal,
) -> Result<CanonicalView, TranslationError> {
    match stake_msg {
        AdapterStakingMsg::MsgDelegate() => match delegate_of(payload) {
            Err(e) => Err(e),
            Ok((c, validator)) => delegate_message(c, dao, validator, fraction),
        },
        AdapterStakingMsg::MsgRedelegate() => match redelegate_of(payload) {
            Err(e) => Err(e),
            Ok((_delegator, c, old, new)) => redelegate_message(c, dao, old, new, fraction),
        },
    }
}

/// The coin field that a staking payload carries.
pub open spec fn staking_coin_field(stake_msg: AdapterStakingMsg) -> u32 {
    match stake_msg {
        AdapterStakingMsg::MsgDelegate() => 3,
        AdapterStakingMsg::MsgRedelegate() => 4,
    }
}

pub open spec fn delegate_result(r: Result<ParseStakingSubmissionResponse, TranslationError>) -> Result<
    (CoinView, Seq<char>),
    TranslationError,
> {
    match r {
        Ok(p) => Ok(p@),
        Err(e) => Err(e),
    }
}

pub open spec fn redelegate_result(
    r: Result<ParseRedelegationSubmissionResponse, TranslationError>,
) -> Result<(Seq<char>, CoinView, Seq<char>, Seq<char>), TranslationError> {
    match r {
        Ok(p) => Ok(p@),
        Err(e) => Err(e),
    }
}

/// Translates a staking submission: the delegator becomes `dao`, the
/// validators are kept and the coin is scaled by `fraction`.
pub fn parse_stargate_wire_staking(
    dao: &String,
    msg: &SubmissionMsg,
    stake_msg: AdapterStakingMsg,
    fraction: Decimal,
) -> (r: Result<CanonicalMessage, TranslationError>)
    ensures
        !bufany_parses(msg.msg@) ==> r == Err::<CanonicalMessage, TranslationError>(
            TranslationError::MalformedPayload,
        ),
        crate::msg::message_result(r) == staking_translation(
            dao@,
            msg.msg@,
            stake_msg,
            fraction,
        ),
{
    match stake_msg {
        AdapterStakingMsg::MsgDelegate() => {
            let parsed = parse_delegate_msg_bufany(&msg.msg)?;
            encode_delegate_msg_anybuf(&parsed.amount, dao, &parsed.recipient, fraction)
        },
        AdapterStakingMsg::MsgRedelegate() => {
            let parsed = parse_redelegate_msg_bufany(&msg.msg)?;
            encode_redelegate_msg_anybuf(&parsed.amount, dao, &parsed.old, &parsed.new, fraction)
        },
    }
}

/// Reads a redelegation payload.
pub fn parse_redelegate_msg_bufany(msg: &Vec<u8>) -> (r: Result<
    ParseRedelegationSubmissionResponse,
    TranslationError,
>)
    ensures
        !bufany_parses(msg@) ==> r == Err::<ParseRedelegationSubmissionResponse, TranslationError>(
            TranslationError::MalformedPayload,
        ),
        redelegate_result(r) == redelegate_of(msg@),
{
    let deserialized = decode(msg.as_slice())?;
    let delegator = match deserialized.string(1) {
        Ok(d) => d,
        Err(_) => String::new(),
    };
    let old_val = deserialized.string(2)?;
    let new_val = deserialized.string(3)?;
    let coin_bytes = deserialized.bytes(4)?;
    let amount = get_coin_from_bytes(&coin_bytes)?;
    Ok(ParseRedelegationSubmissionResponse { delegator, amount, old: old_val, new: new_val })
}

/// Reads a delegation payload.
pub fn parse_delegate_msg_bufany(msg: &Vec<u8>) -> (r: Result<
    ParseStakingSubmissionResponse,
    TranslationError,
>)
    ensures
        !bufany_parses(msg@) ==> r == Err::<ParseStakingSubmissionResponse, TranslationError>(
            TranslationError::MalformedPayload,
        ),
        delegate_result(r) == delegate_of(msg@),
{
    let deserialized = decode(msg.as_slice())?;
    let recipient = deserialized.string(2)?;
    let coin_bytes = deserialized.bytes(3)?;
    let amount = get_coin_from_bytes(&coin_bytes)?;
    Ok(ParseStakingSubmissionResponse { amount, recipient })
}

/// Writes a delegation of `coin` scaled by `fraction`.
pub fn encode_delegate_msg_anybuf(
    coin: &Coin,
    sender: &String,
    validator: &String,
    fraction: Decimal,
) -> (r: Result<CanonicalMessage, TranslationError>)
    ensures
        crate::msg::message_result(r) == delegate_message(coin@, sender@, validator@, fraction),
{
    let amount = new_amount_gauge_fraction(coin.amount, fraction)?;
    let token = encode_coin(&coin.denom, amount);
    let proto = FieldWriter::new().append_string(1, sender.as_str()).append_string(
        2,
        validator.as_str(),
    ).append_bytes(3, token.as_slice()).into_bytes();
    Ok(stargate("/cosmos.staking.v1beta1.MsgDelegate", proto))
}

/// Writes a redelegation of `coin` scaled by `fraction`, with both validators.
pub fn encode_redelegate_msg_anybuf(
    coin: &Coin,
    sender: &String,
    old_val: &String,
    new_val: &String,
    fraction: Decimal,
) -> (r: Result<CanonicalMessage, TranslationError>)
    ensures
        crate::msg::message_result(r) == redelegate_message(
            coin@,
            sender@,
            old_val@,
            new_val@,
            fraction,
        ),
{
    let amount = new_amount_gauge_fraction(coin.amount, fraction)?;
    let token = encode_coin(&coin.denom, amount);
    let proto = FieldWriter::new().append_string(1, sender.as_str()).append_string(
        2,
        old_val.as_str(),
    ).append_string(3, new_val.as_str()).append_bytes(4, token.as_slice()).into_bytes();
    Ok(stargate("/cosmos.staking.v1beta1.MsgReDelegate", proto))
}

/// Round trip: a redelegation payload built from known fields decodes to
/// exactly those, and its translation with fraction one carries both
/// validators and the same coin message byte for byte; only the delegator
/// becomes `dao`.
pub proof fn lemma_redelegate_round_trip(
    delegator: Seq<char>,
    old: Seq<char>,
    new: Seq<char>,
    denom: Seq<char>,
    amount: u128,
    dao: Seq<char>,
)
    requires
        old.len() > 0,
        new.len() > 0,
        denom.len() > 0,
        coin_bytes(denom, amount).len() < usize_limit(),
        wire_of(redelegate_fields(delegator, old, new, coin_bytes(denom, amount))).len()
            < usize_limit(),
    ensures
        ({
            let payload = wire_of(redelegate_fields(delegator, old, new, coin_bytes(denom, amount)));
            &&& redelegate_of(payload) == Ok::<
                (Seq<char>, CoinView, Seq<char>, Seq<char>),
                TranslationError,
            >((delegator, (denom, amount), old, new))
            &&& staking_translation(
                dao,
                payload,
                AdapterStakingMsg::MsgRedelegate(),
                Decimal { atomics: DECIMAL_FRACTIONAL },
            ) == Ok::<CanonicalView, TranslationError>(
                (redelegate_url(), wire_of(redelegate_fields(dao, old, new, coin_bytes(denom, amount)))),
            )
        }),
{
    let cb = coin_bytes(denom, amount);
    let e = Seq::<WireField>::empty();
    let f1 = appended(e, 1, encode_utf8(delegator));
    let f2 = appended(f1, 2, encode_utf8(old));
    let f3 = appended(f2, 3, encode_utf8(new));
    let fs = appended(f3, 4, cb);
    lemma_coin_round_trip(denom, amount);
    assert(cb.len() > 0) by {
        crate::wire::lemma_varint_nonempty(1 * 8 + 2);
        assert(crate::coin::coin_fields(denom, amount).len() > 0);
    }
    lemma_utf8_nonempty(old);
    lemma_utf8_nonempty(new);
    lemma_wire_ok_appended(e, 1, encode_utf8(delegator));
    lemma_wire_ok_appended(f1, 2, encode_utf8(old));
    lemma_wire_ok_appended(f2, 3, encode_utf8(new));
    lemma_wire_ok_appended(f3, 4, cb);
    lemma_values_in_wire(fs);
    let payload = wire_of(fs);
    assert forall|m: u32| 2 <= m <= 4 implies values_at(fs, m) =~= seq![
        if m == 2 {
            encode_utf8(old)
        } else if m == 3 {
            encode_utf8(new)
        } else {
            cb
        },
    ] by {
        assert(values_at(e, m) =~= Seq::<Seq<u8>>::empty());
        lemma_values_appended(e, 1, encode_utf8(delegator), m);
        lemma_values_appended(f1, 2, encode_utf8(old), m);
        lemma_values_appended(f2, 3, encode_utf8(new), m);
        lemma_values_appended(f3, 4, cb, m);
    }
    assert(values_at(e, 1) =~= Seq::<Seq<u8>>::empty());
    lemma_values_appended(e, 1, encode_utf8(delegator), 1);
    lemma_values_appended(f1, 2, encode_utf8(old), 1);
    lemma_values_appended(f2, 3, encode_utf8(new), 1);
    lemma_values_appended(f3, 4, cb, 1);
    assert(values_in(payload, 1) == Some(values_at(fs, 1)));
    if delegator.len() > 0 {
        lemma_utf8_nonempty(delegator);
        assert(values_at(fs, 1) =~= seq![encode_utf8(delegator)]);
        lemma_text_of_utf8(payload, 1, delegator);
    } else {
        assert(delegator =~= Seq::<char>::empty());
        assert(encode_utf8(delegator).len() == 0);
        assert(values_at(fs, 1) =~= Seq::<Seq<u8>>::empty());
    }
    assert(values_at(fs, 2) =~= seq![encode_utf8(old)]);
    assert(values_at(fs, 3) =~= seq![encode_utf8(new)]);
    assert(values_at(fs, 4) =~= seq![cb]);
    assert(values_in(payload, 2) == Some(values_at(fs, 2)));
    assert(values_in(payload, 3) == Some(values_at(fs, 3)));
    assert(values_in(payload, 4) == Some(values_at(fs, 4)));
    lemma_text_of_utf8(payload, 2, old);
    lemma_text_of_utf8(payload, 3, new);
    lemma_scaled_one(amount);
}

/// Round trip: a delegation payload built from a validator and a coin
/// decodes to exactly those, and its translation with fraction one carries the
/// same validator and coin message byte for byte; only the delegator becomes
/// `dao`.
pub proof fn lemma_delegate_round_trip(
    delegator: Seq<char>,
    validator: Seq<char>,
    denom: Seq<char>,
    amount: u128,
    dao: Seq<char>,
)
    requires
        validator.len() > 0,
        denom.len() > 0,
        coin_bytes(denom, amount).len() < usize_limit(),
        wire_of(delegate_fields(delegator, validator, coin_bytes(denom, amount))).len()
            < usize_limit(),
    ensures
        ({
            let payload = wire_of(delegate_fields(delegator, validator, coin_bytes(denom, amount)));
            &&& delegate_of(payload) == Ok::<(CoinView, Seq<char>), TranslationError>(
                ((denom, amount), validator),
            )
            &&& staking_translation(
                dao,
                payload,
                AdapterStakingMsg::MsgDelegate(),
                Decimal { atomics: DECIMAL_FRACTIONAL },
            ) == Ok::<CanonicalView, TranslationError>(
                (delegate_url(), wire_of(delegate_fields(dao, validator, coin_bytes(denom, amount)))),
            )
        }),
{
    let cb = coin_bytes(denom, amount);
    let e = Seq::<WireField>::empty();
    let f1 = appended(e, 1, encode_utf8(delegator));
    let f2 = appended(f1, 2, encode_utf8(validator));
    let fs = appended(f2, 3, cb);
    lemma_coin_round_trip(denom, amount);
    assert(cb.len() > 0) by {
        crate::wire::lemma_varint_nonempty(1 * 8 + 2);
        assert(crate::coin::coin_fields(denom, amount).len() > 0);
    }
    lemma_utf8_nonempty(validator);
    lemma_wire_ok_appended(e, 1, encode_utf8(delegator));
    lemma_wire_ok_appended(f1, 2, encode_utf8(validator));
    lemma_wire_ok_appended(f2, 3, cb);
    lemma_values_in_wire(fs);
    assert(values_at(e, 2) =~= Seq::<Seq<u8>>::empty());
    assert(values_at(e, 3) =~= Seq::<Seq<u8>>::empty());
    lemma_values_appended(e, 1, encode_utf8(delegator), 2);
    lemma_values_appended(e, 1, encode_utf8(delegator), 3);
    lemma_values_appended(f1, 2, encode_utf8(validator), 2);
    lemma_values_appended(f1, 2, encode_utf8(validator), 3);
    lemma_values_appended(f2, 3, cb, 2);
    lemma_values_appended(f2, 3, cb, 3);
    assert(values_at(fs, 2) =~= seq![encode_utf8(validator)]);
    assert(values_at(fs, 3) =~= seq![cb]);
    assert(values_in(wire_of(fs), 2) == Some(values_at(fs, 2)));
    assert(values_in(wire_of(fs), 3) == Some(values_at(fs, 3)));
    lemma_text_of_utf8(wire_of(fs), 2, validator);
    lemma_scaled_one(amount);
}

} // verus!
