//! Governance proposals: messages passed through, deposits scaled.
use vstd::prelude::*;
use vstd::utf8::*;

use crate::amount::{Decimal, DECIMAL_FRACTIONAL};
use crate::coin::{
    byte_seqs, coin_list_bytes, coins_at, coins_fit, coins_view, denoms_nonempty,
    encode_scaled_coins, get_coins_from_bytes, lemma_coins_round_trip, lemma_scaled_coins_one,
    lemma_text_of_utf8, lemma_utf8_nonempty, scaled_coins, Coin, CoinView,
};
use crate::error::TranslationError;
use crate::msg::{stargate, AdapterGovMsg, CanonicalMessage, CanonicalView, SubmissionMsg};
use crate::wire::{
    appended, bufany_parses, decode, lemma_values_appended, lemma_values_concat,
    lemma_values_in_wire, lemma_values_repeated, lemma_wire_ok_appended, lemma_wire_ok_concat,
    lemma_wire_ok_repeated, repeated, repeated_value, text_value, usize_limit, values_at, values_in,
    wire_of, FieldWriter, WireField,
};

verus! {

pub open spec fn submit_proposal_url() -> Seq<char> {
    "/cosmos.gov.v1.MsgSubmitProposal"@
}

/// What a proposal submission holds.
#[derive(Debug, Clone, PartialEq, Eq)]
pub struct ParseGovPropSubmissionResponse {
    pub title: String,
    pub summary: String,
    pub messages: Vec<Vec<u8>>,
    pub metadata: String,
    pub deposit: Vec<Coin>,
}

/// A proposal as values: messages, deposit, metadata, title, summary.
pub type GovPropView = (Seq<Seq<u8>>, Seq<CoinView>, Seq<char>, Seq<char>, Seq<char>);

impl View for ParseGovPropSubmissionResponse {
    type V = GovPropView;

    open spec fn view(&self) -> GovPropView {
        (
            byte_seqs(self.messages@),
            coins_view(self.deposit@),
            self.metadata@,
            self.title@,
            self.summary@,
        )
    }
}

/// What a proposal payload holds: messages 1, deposit 2, metadata 4, title
/// 5, summary 6. The proposer (field 3) is not read. The messages and the
/// deposit's coin messages are read first, then the texts, then each coin.
pub open spec fn gov_prop_of(payload: Seq<u8>) -> Result<GovPropView, TranslationError> {
    match repeated_value(payload, 1) {
        Err(e) => Err(e),
        Ok(msgs) => match repeated_value(payload, 2) {
            Err(e) => Err(e),
            Ok(coin_msgs) => match text_value(payload, 4) {
                Err(e) => Err(e),
                Ok(metadata) => match text_value(payload, 5) {
                    Err(e) => Err(e),
                    Ok(title) => match text_value(payload, 6) {
                        Err(e) => Err(e),
                        Ok(summary) => match coins_at(coin_msgs) {
                            Err(e) => Err(e),
                            Ok(cs) => Ok((msgs, cs, metadata, title, summary)),
                        },
                    },
                },
            },
        },
    }
}

/// The fields of a proposal: messages 1, deposit 2, proposer 3, metadata 4,
/// title 5, summary 6.
pub open spec fn gov_prop_fields(
    msgs: Seq<Seq<u8>>,
    coins: Seq<Seq<u8>>,
    proposer: Seq<char>,
    metadata: Seq<char>,
    title: Seq<char>,
    summary: Seq<char>,
) -> Seq<WireField> {
    appended(
        appended(
            appended(
                appended(repeated(1, msgs) + repeated(2, coins), 3, encode_utf8(proposer)),
                4,
                encode_utf8(metadata),
            ),
            5,
            encode_utf8(title),
        ),
        6,
        encode_utf8(summary),
    )
}

pub open spec fn gov_prop_message(
    proposer: Seq<char>,
    msgs: Seq<Seq<u8>>,
    coins: Seq<CoinView>,
    title: Seq<char>,
    metadata: Seq<char>,
    summary: Seq<char>,
    fraction: Decimal,
) -> Result<CanonicalView, TranslationError> {
    match scaled_coins(coins, fraction) {
        Err(e) => Err(e),
        Ok(bs) => Ok(
            (
                submit_proposal_url(),
                wire_of(gov_prop_fields(msgs, bs, proposer, metadata, title, summary)),
            ),
        ),
    }
}

/// A proposal submission re-proposed by `dao`, its deposit scaled by `fraction`.
pub open spec fn gov_prop_translation(dao: Seq<char>, payload: Seq<u8>, fraction: Decimal) -> Result<
    CanonicalView,
    TranslationError,
> {
    if !bufany_parses(payload) {
        Err(TranslationError::MalformedPayload)
    } else {
        match gov_prop_of(payload) {
            Err(e) => Err(e),
            Ok((msgs, cs, metadata, title, summary)) => gov_prop_message(
                dao,
                msgs,
                cs,
                title,
                metadata,
                summary,
                fraction,
            ),
        }
    }
}

pub open spec fn gov_prop_result(r: Result<ParseGovPropSubmissionResponse, TranslationError>) -> Result<
    GovPropView,
    TranslationError,
> {
    match r {
        Ok(p) => Ok(p@),
        Err(e) => Err(e),
    }
}

/// Translates a proposal submission with `dao` as proposer.
pub fn parse_stargate_wire_gov(
    dao: &String,
    msg: &SubmissionMsg,
    gov_msg: AdapterGovMsg,
    fraction: Decimal,
) -> (r: Result<CanonicalMessage, TranslationError>)
    ensures
        !bufany_parses(msg.msg@) ==> r == Err::<CanonicalMessage, TranslationError>(
            TranslationError::MalformedPayload,
        ),
        crate::msg::message_result(r) == gov_prop_translation(
            dao@,
            msg.msg@,
            fraction,
        ),
{
    match gov_msg {
        AdapterGovMsg::MsgSendGovProp() => {
            let parsed = parse_gov_prop_msg_bufany(&msg.msg)?;
            encode_gov_prop_msg_anybuf(
                dao,
                &parsed.messages,
                &parsed.deposit,
                &parsed.title,
                &parsed.metadata,
                &parsed.summary,
                fraction,
            )
        },
    }
}

/// Reads a proposal payload.
pub fn parse_gov_prop_msg_bufany(msg: &Vec<u8>) -> (r: Result<
    ParseGovPropSubmissionResponse,
    TranslationError,
>)
    ensures
        !bufany_parses(msg@) ==> r == Err::<ParseGovPropSubmissionResponse, TranslationError>(
            TranslationError::MalformedPayload,
        ),
        gov_prop_result(r) == gov_prop_of(msg@),
{
    let deserialized = decode(msg.as_slice())?;
    let msg_bytes = deserialized.repeated_bytes(1)?;
    let coin_bytes = deserialized.repeated_bytes(2)?;
    let metadata = deserialized.string(4)?;
    let title = deserialized.string(5)?;
    let summary = deserialized.string(6)?;
    let coins = get_coins_from_bytes(coin_bytes)?;
    Ok(ParseGovPropSubmissionResponse { deposit: coins, messages: msg_bytes, metadata, title, summary })
}

/// Writes a proposal by `proposer`: messages unchanged, deposit scaled.
pub fn encode_gov_prop_msg_anybuf(
    proposer: &String,
    prop_msgs: &Vec<Vec<u8>>,
    coins: &Vec<Coin>,
    title: &String,
    metadata: &String,
    summary: &String,
    fraction: Decimal,
) -> (r: Result<CanonicalMessage, TranslationError>)
    ensures
        crate::msg::message_result(r) == gov_prop_message(
            proposer@,
            byte_seqs(prop_msgs@),
            coins_view(coins@),
            title@,
            metadata@,
            summary@,
            fraction,
        ),
{
    let anybuf_coins = encode_scaled_coins(coins, fraction)?;
    let proto = FieldWriter::new().append_repeated_bytes(1, prop_msgs).append_repeated_bytes(
        2,
        &anybuf_coins,
    ).append_string(3, proposer.as_str()).append_string(4, metadata.as_str()).append_string(
        5,
        title.as_str(),
    ).append_string(6, summary.as_str()).into_bytes();
    proof {
        assert(prop_msgs@.map_values(|v: Vec<u8>| v@) == byte_seqs(prop_msgs@));
        assert(anybuf_coins@.map_values(|v: Vec<u8>| v@) == byte_seqs(anybuf_coins@));
        let m = repeated(1, byte_seqs(prop_msgs@));
        assert(Seq::<WireField>::empty() + m =~= m);
    }
    Ok(stargate("/cosmos.gov.v1.MsgSubmitProposal", proto))
}

/// Round trip: a proposal payload built from messages, deposit coins and
/// texts decodes to exactly those, and its translation with fraction one
/// carries the same messages, coin messages and texts byte for byte; only
/// the proposer becomes `dao`.
pub proof fn lemma_gov_prop_round_trip(
    msgs: Seq<Seq<u8>>,
    cs: Seq<CoinView>,
    proposer: Seq<char>,
    metadata: Seq<char>,
    title: Seq<char>,
    summary: Seq<char>,
    dao: Seq<char>,
)
    requires
        metadata.len() > 0,
        title.len() > 0,
        summary.len() > 0,
        denoms_nonempty(cs),
        coins_fit(cs),
        wire_of(gov_prop_fields(msgs, coin_list_bytes(cs), proposer, metadata, title, summary)).len()
            < usize_limit(),
    ensures
        ({
            let payload = wire_of(
                gov_prop_fields(msgs, coin_list_bytes(cs), proposer, metadata, title, summary),
            );
            &&& gov_prop_of(payload) == Ok::<GovPropView, TranslationError>(
                (msgs, cs, metadata, title, summary),
            )
            &&& gov_prop_translation(dao, payload, Decimal { atomics: DECIMAL_FRACTIONAL }) == Ok::<
                CanonicalView,
                TranslationError,
            >(
                (
                    submit_proposal_url(),
                    wire_of(
                        gov_prop_fields(msgs, coin_list_bytes(cs), dao, metadata, title, summary),
                    ),
                ),
            )
        }),
{
    let bs = coin_list_bytes(cs);
    let r1 = repeated(1, msgs);
    let r2 = repeated(2, bs);
    let f0 = r1 + r2;
    let f3 = appended(f0, 3, encode_utf8(proposer));
    let f4 = appended(f3, 4, encode_utf8(metadata));
    let f5 = appended(f4, 5, encode_utf8(title));
    let fs = appended(f5, 6, encode_utf8(summary));
    lemma_wire_ok_repeated(1, msgs);
    lemma_wire_ok_repeated(2, bs);
    lemma_wire_ok_concat(r1, r2);
    lemma_wire_ok_appended(f0, 3, encode_utf8(proposer));
    lemma_wire_ok_appended(f3, 4, encode_utf8(metadata));
    lemma_wire_ok_appended(f4, 5, encode_utf8(title));
    lemma_wire_ok_appended(f5, 6, encode_utf8(summary));
    lemma_values_in_wire(fs);
    lemma_utf8_nonempty(metadata);
    lemma_utf8_nonempty(title);
    lemma_utf8_nonempty(summary);
    assert forall|m: u32| m == 1 || m == 2 || m == 4 || m == 5 || m == 6 implies values_at(fs, m)
        =~= (if m == 1 {
        msgs
    } else if m == 2 {
        bs
    } else if m == 4 {
        seq![encode_utf8(metadata)]
    } else if m == 5 {
        seq![encode_utf8(title)]
    } else {
        seq![encode_utf8(summary)]
    }) by {
        lemma_values_repeated(1, msgs, m);
        lemma_values_repeated(2, bs, m);
        lemma_values_concat(r1, r2, m);
        lemma_values_appended(f0, 3, encode_utf8(proposer), m);
        lemma_values_appended(f3, 4, encode_utf8(metadata), m);
        lemma_values_appended(f4, 5, encode_utf8(title), m);
        lemma_values_appended(f5, 6, encode_utf8(summary), m);
    }
    let payload = wire_of(fs);
    assert(values_at(fs, 1) =~= msgs);
    assert(values_at(fs, 2) =~= bs);
    assert(values_at(fs, 4) =~= seq![encode_utf8(metadata)]);
    assert(values_at(fs, 5) =~= seq![encode_utf8(title)]);
    assert(values_at(fs, 6) =~= seq![encode_utf8(summary)]);
    assert(values_in(payload, 1) == Some(values_at(fs, 1)));
    assert(values_in(payload, 2) == Some(values_at(fs, 2)));
    assert(values_in(payload, 4) == Some(values_at(fs, 4)));
    assert(values_in(payload, 5) == Some(values_at(fs, 5)));
    assert(values_in(payload, 6) == Some(values_at(fs, 6)));
    lemma_text_of_utf8(payload, 4, metadata);
    lemma_text_of_utf8(payload, 5, title);
    lemma_text_of_utf8(payload, 6, summary);
    lemma_coins_round_trip(cs);
    lemma_scaled_coins_one(cs);
}

} // verus!
