//! Funding the community pool: the distribution family.
use vstd::prelude::*;
use vstd::utf8::*;

use crate::amount::{Decimal, DECIMAL_FRACTIONAL};
use crate::coin::{
    byte_seqs, coin_list_bytes, coins_at, coins_fit, coins_view, denoms_nonempty,
    encode_scaled_coins, get_coins_from_bytes, lemma_coins_round_trip, lemma_scaled_coins_one,
    scaled_coins, Coin, CoinView,
};
use crate::error::TranslationError;
use crate::msg::{stargate, AdapterDistributionMsg, CanonicalMessage, CanonicalView, SubmissionMsg};
use crate::wire::{
    appended, bufany_parses, decode, lemma_values_appended, lemma_values_concat, lemma_values_in_wire,
    lemma_values_repeated, lemma_wire_ok_appended, lemma_wire_ok_concat, lemma_wire_ok_repeated,
    repeated, repeated_value, usize_limit, values_at, values_in, wire_of, FieldWriter, WireField,
};

verus! {

/// The message type of a contribution to the community pool.
pub open spec fn fund_pool_url() -> Seq<char> {
    "/cosmos.distribution.v1beta1.MsgFundCommunityPool"@
}

/// What a fund-pool submission holds: its coins.
#[derive(Debug, Clone, PartialEq, Eq)]
pub struct ParseDistrSubmissionResponse {
    pub coins: Vec<Coin>,
}

impl View for ParseDistrSubmissionResponse {
    type V = Seq<CoinView>;

    open spec fn view(&self) -> Seq<CoinView> {
        coins_view(self.coins@)
    }
}

/// What a fund-pool payload holds: the coins of field 1.
pub open spec fn fund_pool_of(payload: Seq<u8>) -> Result<Seq<CoinView>, TranslationError> {
    match repeated_value(payload, 1) {
        Err(e) => Err(e),
        Ok(coin_msgs) => coins_at(coin_msgs),
    }
}

/// The fields of a contribution: one coin per field 1, then the sender as
/// field 2. There is no recipient: the funds go to the community pool.
pub open spec fn fund_pool_fields(coins: Seq<Seq<u8>>, sender: Seq<char>) -> Seq<WireField> {
    repeated(1, coins) + appended(Seq::empty(), 2, encode_utf8(sender))
}

/// The contribution from `sender` of `coins` scaled by `fraction`.
pub open spec fn fund_pool_message(coins: Seq<CoinView>, sender: Seq<char>, fraction: Decimal) -> Result<
    CanonicalView,
    TranslationError,
> {
    match scaled_coins(coins, fraction) {
        Err(e) => Err(e),
        Ok(bs) => Ok((fund_pool_url(), wire_of(fund_pool_fields(bs, sender)))),
    }
}

/// A fund-pool submission re-sent from `dao`, its coins scaled by `fraction`.
pub open spec fn fund_pool_translation(dao: Seq<char>, payload: Seq<u8>, fraction: Decimal) -> Result<
    CanonicalView,
    TranslationError,
> {
    if !bufany_parses(payload) {
        Err(TranslationError::MalformedPayload)
    } else {
        match fund_pool_of(payload) {
            Err(e) => Err(e),
            Ok(cs) => fund_pool_message(cs, dao, fraction),
        }
    }
}

pub open spec fn distr_result(r: Result<ParseDistrSubmissionResponse, TranslationError>) -> Result<
    Seq<CoinView>,
    TranslationError,
> {
    match r {
        Ok(p) => Ok(p@),
        Err(e) => Err(e),
    }
}

/// Translates a fund-pool submission: the sender becomes `dao` and each coin
/// is scaled by `fraction`.
pub fn parse_stargate_wire_distribution(
    dao: &String,
    msg: &SubmissionMsg,
    distr_msg: AdapterDistributionMsg,
    fraction: Decimal,
) -> (r: Result<CanonicalMessage, TranslationError>)
    ensures
        !bufany_parses(msg.msg@) ==> r == Err::<CanonicalMessage, TranslationError>(
            TranslationError::MalformedPayload,
        ),
        crate::msg::message_result(r) == fund_pool_translation(dao@, msg.msg@, fraction),
{
    match distr_msg {
        AdapterDistributionMsg::MsgFundCommunityPool() => {
            let parsed = parse_distr_submission_msg_bufany(&msg.msg)?;
            encode_fund_community_pool_anybuf(&parsed.coins, dao, fraction)
        },
    }
}

/// Reads a fund-pool payload.
pub fn parse_distr_submission_msg_bufany(msg: &Vec<u8>) -> (r: Result<
    ParseDistrSubmissionResponse,
    TranslationError,
>)
    ensures
        !bufany_parses(msg@) ==> r == Err::<ParseDistrSubmissionResponse, TranslationError>(
            TranslationError::MalformedPayload,
        ),
        distr_result(r) == fund_pool_of(msg@),
{
    let deserialized = decode(msg.as_slice())?;
    let coin_bytes = deserialized.repeated_bytes(1)?;
    let coins = get_coins_from_bytes(coin_bytes)?;
    Ok(ParseDistrSubmissionResponse { coins })
}

/// Writes a contribution of `coins`, each scaled by `fraction`.
pub fn encode_fund_community_pool_anybuf(coins: &Vec<Coin>, sender: &String, fraction: Decimal) -> (r:
    Result<CanonicalMessage, TranslationError>)
    ensures
        crate::msg::message_result(r) == fund_pool_message(coins_view(coins@), sender@, fraction),
{
    let anybuf_coins = encode_scaled_coins(coins, fraction)?;
    let proto = FieldWriter::new().append_repeated_bytes(1, &anybuf_coins).append_string(
        2,
        sender.as_str(),
    ).into_bytes();
    assert(anybuf_coins@.map_values(|v: Vec<u8>| v@) == byte_seqs(anybuf_coins@));
    proof {
        let a = Seq::<WireField>::empty() + repeated(1, byte_seqs(anybuf_coins@));
        assert(a =~= repeated(1, byte_seqs(anybuf_coins@)));
        assert(appended(a, 2, encode_utf8(sender@)) =~= fund_pool_fields(
            byte_seqs(anybuf_coins@),
            sender@,
        ));
    }
    Ok(stargate("/cosmos.distribution.v1beta1.MsgFundCommunityPool", proto))
}

/// Round trip: a fund-pool payload built from coins decodes to exactly those
/// coins, and its translation with fraction one carries the same coin
/// messages byte for byte, sent from `dao`.
pub proof fn lemma_fund_pool_round_trip(cs: Seq<CoinView>, sender: Seq<char>, dao: Seq<char>)
    requires
        denoms_nonempty(cs),
        coins_fit(cs),
        wire_of(fund_pool_fields(coin_list_bytes(cs), sender)).len() < usize_limit(),
    ensures
        ({
            let payload = wire_of(fund_pool_fields(coin_list_bytes(cs), sender));
            &&& fund_pool_of(payload) == Ok::<Seq<CoinView>, TranslationError>(cs)
            &&& fund_pool_translation(dao, payload, Decimal { atomics: DECIMAL_FRACTIONAL }) == Ok::<
                CanonicalView,
                TranslationError,
            >((fund_pool_url(), wire_of(fund_pool_fields(coin_list_bytes(cs), dao))))
        }),
{
    let bs = coin_list_bytes(cs);
    let rep = repeated(1, bs);
    let e = Seq::<WireField>::empty();
    let tail = appended(e, 2, encode_utf8(sender));
    let fs = rep + tail;
    lemma_wire_ok_repeated(1, bs);
    lemma_wire_ok_appended(e, 2, encode_utf8(sender));
    lemma_wire_ok_concat(rep, tail);
    lemma_values_in_wire(fs);
    assert(values_at(e, 1) =~= Seq::<Seq<u8>>::empty());
    lemma_values_appended(e, 2, encode_utf8(sender), 1);
    lemma_values_repeated(1, bs, 1);
    lemma_values_concat(rep, tail, 1);
    assert(values_at(fs, 1) =~= bs);
    assert(values_in(wire_of(fs), 1) == Some(values_at(fs, 1)));
    lemma_coins_round_trip(cs);
    lemma_scaled_coins_one(cs);
}

} // verus!
