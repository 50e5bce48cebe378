//! Transfers: the bank send family.
use vstd::prelude::*;
use vstd::utf8::*;

use crate::amount::{Decimal, DECIMAL_FRACTIONAL};
use crate::coin::{
    coin_list_bytes, denoms_nonempty, lemma_coins_round_trip, lemma_scaled_coins_one,
    coins_fit, lemma_text_of_utf8, lemma_utf8_nonempty, byte_seqs, coins_at, coins_view, encode_scaled_coins, get_coins_from_bytes,
    scaled_coins, Coin, CoinView,
};
use crate::error::TranslationError;
use crate::msg::{stargate, AdapterBankMsg, CanonicalMessage, CanonicalView, SubmissionMsg};
use crate::wire::{
    appended, bufany_parses, decode, lemma_values_appended, lemma_values_concat,
    lemma_values_in_wire, lemma_values_repeated, lemma_wire_ok_appended, lemma_wire_ok_concat,
    lemma_wire_ok_repeated, repeated, repeated_value, text_value, usize_limit, values_at, values_in,
    wire_of, FieldWriter, WireField,
};

verus! {

/// The message type of a transfer.
pub open spec fn bank_send_url() -> Seq<char> {
    "/cosmos.bank.v1beta1.MsgSend"@
}

/// What a transfer submission holds: its coins, its recipient and its sender.
#[derive(Debug, Clone, PartialEq, Eq)]
pub struct ParseBankSubmissionResponse {
    pub coins: Vec<Coin>,
    pub recipient: String,
    pub sender: String,
}

/// A transfer as values: coins, recipient, sender.
pub type BankSendView = (Seq<CoinView>, Seq<char>, Seq<char>);

impl View for ParseBankSubmissionResponse {
    type V = BankSendView;

    open spec fn view(&self) -> BankSendView {
        (coins_view(self.coins@), self.recipient@, self.sender@)
    }
}

/// What a transfer payload holds: the sender is field 1, the recipient field
/// 2, the coins field 3. The coins' messages are read first, then the
/// recipient, then the sender, then each coin.
pub open spec fn bank_send_of(payload: Seq<u8>) -> Result<BankSendView, TranslationError> {
    match repeated_value(payload, 3) {
        Err(e) => Err(e),
        Ok(coin_msgs) => match text_value(payload, 2) {
            Err(e) => Err(e),
            Ok(recipient) => match text_value(payload, 1) {
                Err(e) => Err(e),
                Ok(sender) => match coins_at(coin_msgs) {
                    Err(e) => Err(e),
                    Ok(cs) => Ok((cs, recipient, sender)),
                },
            },
        },
    }
}

/// The fields of a transfer: sender 1, recipient 2, one coin per field 3.
pub open spec fn bank_send_fields(sender: Seq<char>, recipient: Seq<char>, coins: Seq<Seq<u8>>) -> Seq<
    WireField,
> {
    appended(appended(Seq::empty(), 1, encode_utf8(sender)), 2, encode_utf8(recipient)) + repeated(
        3,
        coins,
    )
}

/// The transfer from `sender` to `recipient` of `coins` scaled by `fraction`.
pub open spec fn bank_send_message(
    sender: Seq<char>,
    recipient: Seq<char>,
    coins: Seq<CoinView>,
    fraction: Decimal,
) -> Result<CanonicalView, TranslationError> {
    match scaled_coins(coins, fraction) {
        Err(e) => Err(e),
        Ok(bs) => Ok((bank_send_url(), wire_of(bank_send_fields(sender, recipient, bs)))),
    }
}

/// A transfer submission with its sender and recipient kept and its coins
/// scaled by `fraction`; bytes that the decoder rejects are `MalformedPayload`.
pub open spec fn bank_send_translation(payload: Seq<u8>, fraction: Decimal) -> Result<
    CanonicalView,
    TranslationError,
> {
    if !bufany_parses(payload) {
        Err(TranslationError::MalformedPayload)
    } else {
        match bank_send_of(payload) {
            Err(e) => Err(e),
            Ok((cs, recipient, sender)) => bank_send_message(sender, recipient, cs, fraction),
        }
    }
}

pub open spec fn bank_result(r: Result<ParseBankSubmissionResponse, TranslationError>) -> Result<
    BankSendView,
    TranslationError,
> {
    match r {
        Ok(p) => Ok(p@),
        Err(e) => Err(e),
    }
}

/// Translates a transfer submission: sender and recipient are carried
/// through unchanged, and each coin is scaled by `fraction`.
pub fn parse_stargate_wire_bank(msg: &SubmissionMsg, bank_msg: AdapterBankMsg, fraction: Decimal) -> (r:
    Result<CanonicalMessage, TranslationError>)
    ensures
        !bufany_parses(msg.msg@) ==> r == Err::<CanonicalMessage, TranslationError>(
            TranslationError::MalformedPayload,
        ),
        crate::msg::message_result(r) == bank_send_translation(msg.msg@, fraction),
{
    match bank_msg {
        AdapterBankMsg::MsgSend() => {
            let parsed = parse_bank_transfer_msg_bufany(&msg.msg)?;
            encode_bank_transfer_msg_anybuf(&parsed.sender, &parsed.recipient, &parsed.coins, fraction)
        },
    }
}

/// Reads a transfer payload.
pub fn parse_bank_transfer_msg_bufany(msg: &Vec<u8>) -> (r: Result<
    ParseBankSubmissionResponse,
    TranslationError,
>)
    ensures
        !bufany_parses(msg@) ==> r == Err::<ParseBankSubmissionResponse, TranslationError>(
            TranslationError::MalformedPayload,
        ),
        bank_result(r) == bank_send_of(msg@),
{
    let deserialized = decode(msg.as_slice())?;
    let coin_bytes = deserialized.repeated_bytes(3)?;
    let recipient = deserialized.string(2)?;
    let sender = deserialized.string(1)?;
    let coins = get_coins_from_bytes(coin_bytes)?;
    Ok(ParseBankSubmissionResponse { coins, recipient, sender })
}

/// Writes a transfer of `coins`, each scaled by `fraction`.
pub fn encode_bank_transfer_msg_anybuf(
    sender: &String,
    recipient: &String,
    coins: &Vec<Coin>,
    fraction: Decimal,
) -> (r: Result<CanonicalMessage, TranslationError>)
    ensures
        crate::msg::message_result(r) == bank_send_message(
            sender@,
            recipient@,
            coins_view(coins@),
            fraction,
        ),
{
    let anybuf_coins = encode_scaled_coins(coins, fraction)?;
    let proto = FieldWriter::new().append_string(1, sender.as_str()).append_string(
        2,
        recipient.as_str(),
    ).append_repeated_bytes(3, &anybuf_coins).into_bytes();
    assert(anybuf_coins@.map_values(|v: Vec<u8>| v@) == byte_seqs(anybuf_coins@));
    Ok(stargate("/cosmos.bank.v1beta1.MsgSend", proto))
}

/// Round trip: a transfer payload built from a sender, a recipient and coins
/// decodes to exactly those, and its translation with fraction one gives the
/// payload back byte for byte.
pub proof fn lemma_bank_send_round_trip(sender: Seq<char>, recipient: Seq<char>, cs: Seq<CoinView>)
    requires
        sender.len() > 0,
        recipient.len() > 0,
        denoms_nonempty(cs),
        coins_fit(cs),
        wire_of(bank_send_fields(sender, recipient, coin_list_bytes(cs))).len() < usize_limit(),
    ensures
        ({
            let payload = wire_of(bank_send_fields(sender, recipient, coin_list_bytes(cs)));
            &&& bank_send_of(payload) == Ok::<BankSendView, TranslationError>(
                (cs, recipient, sender),
            )
            &&& bank_send_translation(payload, Decimal { atomics: DECIMAL_FRACTIONAL }) == Ok::<
                CanonicalView,
                TranslationError,
            >((bank_send_url(), payload))
        }),
{
    let e = Seq::<WireField>::empty();
    let f1 = appended(e, 1, encode_utf8(sender));
    let f2 = appended(f1, 2, encode_utf8(recipient));
    let bs = coin_list_bytes(cs);
    let rep = repeated(3, bs);
    let fs = f2 + rep;
    assert(fs == bank_send_fields(sender, recipient, bs));
    lemma_wire_ok_appended(e, 1, encode_utf8(sender));
    lemma_wire_ok_appended(f1, 2, encode_utf8(recipient));
    lemma_wire_ok_repeated(3, bs);
    lemma_wire_ok_concat(f2, rep);
    lemma_values_in_wire(fs);
    lemma_utf8_nonempty(sender);
    lemma_utf8_nonempty(recipient);
    assert forall|m: u32| 1 <= m <= 3 implies values_at(fs, m) =~= (if m == 1 {
        seq![encode_utf8(sender)]
    } else if m == 2 {
        seq![encode_utf8(recipient)]
    } else {
        bs
    }) by {
        assert(values_at(e, m) =~= Seq::<Seq<u8>>::empty());
        lemma_values_appended(e, 1, encode_utf8(sender), m);
        lemma_values_appended(f1, 2, encode_utf8(recipient), m);
        lemma_values_repeated(3, bs, m);
        lemma_values_concat(f2, rep, m);
    }
    assert(values_at(fs, 1) =~= seq![encode_utf8(sender)]);
    assert(values_at(fs, 2) =~= seq![encode_utf8(recipient)]);
    assert(values_at(fs, 3) =~= bs);
    assert(values_in(wire_of(fs), 1) == Some(values_at(fs, 1)));
    assert(values_in(wire_of(fs), 2) == Some(values_at(fs, 2)));
    assert(values_in(wire_of(fs), 3) == Some(values_at(fs, 3)));
    lemma_text_of_utf8(wire_of(fs), 1, sender);
    lemma_text_of_utf8(wire_of(fs), 2, recipient);
    lemma_coins_round_trip(cs);
    lemma_scaled_coins_one(cs);
}

} // verus!
