//! Coins: a denomination and an amount, carried as a nested message whose
//! field 1 is the denomination and field 2 the amount as decimal text.
use vstd::prelude::*;
use vstd::utf8::*;

use crate::amount::{
    amount_of_text, amount_text, decimal_text, lemma_amount_text_round_trip, lemma_scaled_one,
    new_amount_gauge_fraction, parse_amount, scaled, Decimal, DECIMAL_FRACTIONAL,
};
use crate::error::TranslationError;
use crate::wire::{
    appended, bytes_value, decode, lemma_values_appended, lemma_values_in_wire,
    lemma_wire_ok_appended, text_value, usize_limit, values_at, values_in, wire_of, FieldWriter,
    WireField,
};

verus! {

/// An amount of one denomination.
#[derive(Debug, Clone, PartialEq, Eq)]
pub struct Coin {
    pub denom: String,
    pub amount: u128,
}

/// A coin as values: its denomination and its amount.
pub type CoinView = (Seq<char>, u128);

impl View for Coin {
    type V = CoinView;

    open spec fn view(&self) -> CoinView {
        (self.denom@, self.amount)
    }
}

/// The coin `amount` of `denom`.
pub fn coin(amount: u128, denom: String) -> (r: Coin)
    ensures
        r@ == (denom@, amount),
{
    Coin { denom, amount }
}

/// The fields of the coin message for `amount` of `denom`.
pub open spec fn coin_fields(denom: Seq<char>, amount: u128) -> Seq<WireField> {
    appended(appended(Seq::empty(), 1, encode_utf8(denom)), 2, decimal_text(amount as nat))
}

/// The bytes of the coin message for `amount` of `denom`.
pub open spec fn coin_bytes(denom: Seq<char>, amount: u128) -> Seq<u8> {
    wire_of(coin_fields(denom, amount))
}

/// The coin that the message `b` holds: the amount is read first, then the
/// denomination.
pub open spec fn coin_at(b: Seq<u8>) -> Result<CoinView, TranslationError> {
    match bytes_value(b, 2) {
        Err(e) => Err(e),
        Ok(t) => match amount_of_text(t) {
            None => Err(TranslationError::InvalidEncoding),
            Some(a) => match text_value(b, 1) {
                Err(e) => Err(e),
                Ok(d) => Ok((d, a)),
            },
        },
    }
}

/// The coins that the messages `vs` hold, in order; the first failure wins.
pub open spec fn coins_at(vs: Seq<Seq<u8>>) -> Result<Seq<CoinView>, TranslationError>
    decreases vs.len(),
{
    if vs.len() == 0 {
        Ok(Seq::empty())
    } else {
        match coins_at(vs.drop_last()) {
            Err(e) => Err(e),
            Ok(cs) => match coin_at(vs.last()) {
                Err(e) => Err(e),
                Ok(c) => Ok(cs.push(c)),
            },
        }
    }
}

/// The coin messages of `cs`, each amount scaled by `fraction`; the first
/// overflow wins.
pub open spec fn scaled_coins(cs: Seq<CoinView>, fraction: Decimal) -> Result<
    Seq<Seq<u8>>,
    TranslationError,
>
    decreases cs.len(),
{
    if cs.len() == 0 {
        Ok(Seq::empty())
    } else {
        match scaled_coins(cs.drop_last(), fraction) {
            Err(e) => Err(e),
            Ok(bs) => match scaled(cs.last().1, fraction) {
                Err(e) => Err(e),
                Ok(a) => Ok(bs.push(coin_bytes(cs.last().0, a))),
            },
        }
    }
}

pub open spec fn coin_result(r: Result<Coin, TranslationError>) -> Result<CoinView, TranslationError> {
    match r {
        Ok(c) => Ok(c@),
        Err(e) => Err(e),
    }
}

pub open spec fn coins_view(cs: Seq<Coin>) -> Seq<CoinView> {
    cs.map_values(|c: Coin| c@)
}

pub open spec fn coins_result(r: Result<Vec<Coin>, TranslationError>) -> Result<
    Seq<CoinView>,
    TranslationError,
> {
    match r {
        Ok(cs) => Ok(coins_view(cs@)),
        Err(e) => Err(e),
    }
}

pub open spec fn byte_seqs(vs: Seq<Vec<u8>>) -> Seq<Seq<u8>> {
    vs.map_values(|v: Vec<u8>| v@)
}

pub open spec fn byte_seqs_result(r: Result<Vec<Vec<u8>>, TranslationError>) -> Result<
    Seq<Seq<u8>>,
    TranslationError,
> {
    match r {
        Ok(vs) => Ok(byte_seqs(vs@)),
        Err(e) => Err(e),
    }
}

/// Reads one coin from its message.
pub fn get_coin_from_bytes(coin_bytes: &Vec<u8>) -> (r: Result<Coin, TranslationError>)
    ensures
        coin_result(r) == coin_at(coin_bytes@),
{
    let view = decode(coin_bytes.as_slice())?;
    let text = view.bytes(2)?;
    let amount = match parse_amount(text.as_slice()) {
        Some(a) => a,
        None => {
            return Err(TranslationError::InvalidEncoding);
        },
    };
    let denom = view.string(1)?;
    Ok(coin(amount, denom))
}

/// Reads coins from their messages, in order.
pub fn get_coins_from_bytes(coin_bytes: Vec<Vec<u8>>) -> (r: Result<Vec<Coin>, TranslationError>)
    ensures
        coins_result(r) == coins_at(byte_seqs(coin_bytes@)),
{
    let ghost vs = byte_seqs(coin_bytes@);
    let mut coins: Vec<Coin> = Vec::new();
    let mut i: usize = 0;
    assert(vs.subrange(0, 0) =~= Seq::<Seq<u8>>::empty());
    assert(coins_view(coins@) =~= Seq::<CoinView>::empty());
    while i < coin_bytes.len()
        invariant
            i <= coin_bytes@.len(),
            vs == byte_seqs(coin_bytes@),
            coins_at(vs.subrange(0, i as int)) == Ok::<
                Seq<CoinView>,
                TranslationError,
            >(coins_view(coins@)),
        decreases coin_bytes@.len() - i,
    {
        let ghost before = coins@;
        let c = get_coin_from_bytes(&coin_bytes[i]);
        proof {
            let pre = vs.subrange(0, i + 1);
            assert(pre.drop_last() =~= vs.subrange(0, i as int));
            assert(pre.last() == coin_bytes@[i as int]@);
        }
        match c {
            Ok(c) => {
                coins.push(c);
                proof {
                    assert(coins_view(coins@) =~= coins_view(before).push(c@));
                }
            },
            Err(e) => {
                proof {
                    lemma_coins_at_error_prefix(vs, i as int + 1);
                    assert(vs.subrange(0, vs.len() as int) =~= vs);
                }
                return Err(e);
            },
        }
        i = i + 1;
    }
    assert(vs.subrange(0, vs.len() as int) =~= vs);
    Ok(coins)
}

/// Once a prefix of the messages fails, the whole list fails the same way.
proof fn lemma_coins_at_error_prefix(vs: Seq<Seq<u8>>, k: int)
    requires
        0 <= k <= vs.len(),
        coins_at(vs.subrange(0, k)) is Err,
    ensures
        coins_at(vs) == coins_at(vs.subrange(0, k)),
    decreases vs.len() - k,
{
    if k < vs.len() {
        let next = vs.subrange(0, k + 1);
        assert(next.drop_last() =~= vs.subrange(0, k));
        lemma_coins_at_error_prefix(vs, k + 1);
    } else {
        assert(vs.subrange(0, k) =~= vs);
    }
}

/// The coin message for `amount` of `denom`.
pub fn encode_coin(denom: &String, amount: u128) -> (r: Vec<u8>)
    ensures
        r@ == coin_bytes(denom@, amount),
{
    let text = amount_text(amount);
    FieldWriter::new().append_string(1, denom.as_str()).append_bytes(2, text.as_slice()).into_bytes()
}

/// The coin messages of `coins`, each amount scaled by `fraction`.
pub fn encode_scaled_coins(coins: &Vec<Coin>, fraction: Decimal) -> (r: Result<
    Vec<Vec<u8>>,
    TranslationError,
>)
    ensures
        byte_seqs_result(r) == scaled_coins(coins_view(coins@), fraction),
{
    let ghost cs = coins_view(coins@);
    let mut out: Vec<Vec<u8>> = Vec::new();
    let mut i: usize = 0;
    assert(cs.subrange(0, 0) =~= Seq::<CoinView>::empty());
    assert(byte_seqs(out@) =~= Seq::<Seq<u8>>::empty());
    while i < coins.len()
        invariant
            i <= coins@.len(),
            cs == coins_view(coins@),
            scaled_coins(cs.subrange(0, i as int), fraction) == Ok::<
                Seq<Seq<u8>>,
                TranslationError,
            >(byte_seqs(out@)),
        decreases coins@.len() - i,
    {
        let ghost before = out@;
        let c = &coins[i];
        let ghost pre = cs.subrange(0, i + 1);
        assert(pre.drop_last() =~= cs.subrange(0, i as int));
        assert(pre.last() == c@);
        match new_amount_gauge_fraction(c.amount, fraction) {
            Ok(a) => {
                let b = encode_coin(&c.denom, a);
                out.push(b);
                assert(byte_seqs(out@) =~= byte_seqs(before).push(coin_bytes(c.denom@, a)));
            },
            Err(e) => {
                proof {
                    lemma_scaled_coins_error_prefix(cs, fraction, i as int + 1);
                    assert(cs.subrange(0, cs.len() as int) =~= cs);
                }
                return Err(e);
            },
        }
        i = i + 1;
    }
    assert(cs.subrange(0, cs.len() as int) =~= cs);
    Ok(out)
}

proof fn lemma_scaled_coins_error_prefix(cs: Seq<CoinView>, fraction: Decimal, k: int)
    requires
        0 <= k <= cs.len(),
        scaled_coins(cs.subrange(0, k), fraction) is Err,
    ensures
        scaled_coins(cs, fraction) == scaled_coins(cs.subrange(0, k), fraction),
    decreases cs.len() - k,
{
    if k < cs.len() {
        let next = cs.subrange(0, k + 1);
        assert(next.drop_last() =~= cs.subrange(0, k));
        lemma_scaled_coins_error_prefix(cs, fraction, k + 1);
    } else {
        assert(cs.subrange(0, k) =~= cs);
    }
}

/// The coin messages of `cs`, unscaled.
pub open spec fn coin_list_bytes(cs: Seq<CoinView>) -> Seq<Seq<u8>> {
    cs.map_values(|c: CoinView| coin_bytes(c.0, c.1))
}

/// Every coin of `cs` names a denomination.
pub open spec fn denoms_nonempty(cs: Seq<CoinView>) -> bool {
    forall|i: int| 0 <= i < cs.len() ==> (#[trigger] cs[i]).0.len() > 0
}

/// Every coin message of `cs` fits in memory.
pub open spec fn coins_fit(cs: Seq<CoinView>) -> bool {
    forall|i: int| 0 <= i < cs.len() ==> #[trigger] coin_bytes(cs[i].0, cs[i].1).len() < usize_limit()
}

/// A non-empty text has non-empty UTF-8 bytes.
pub proof fn lemma_utf8_nonempty(x: Seq<char>)
    requires
        x.len() > 0,
    ensures
        encode_utf8(x).len() > 0,
{
    encode_utf8_decode_utf8(x);
    if encode_utf8(x).len() == 0 {
        assert(encode_utf8(x) =~= Seq::<u8>::empty());
        assert(decode_utf8(Seq::<u8>::empty()) =~= Seq::<char>::empty());
    }
}

/// The text value of a field that holds the UTF-8 bytes of `x` is `x`.
pub proof fn lemma_text_of_utf8(buf: Seq<u8>, n: u32, x: Seq<char>)
    requires
        bytes_value(buf, n) == Ok::<Seq<u8>, TranslationError>(encode_utf8(x)),
    ensures
        text_value(buf, n) == Ok::<Seq<char>, TranslationError>(x),
{
    encode_utf8_valid_utf8(x);
    encode_utf8_decode_utf8(x);
}

/// A coin message made from a denomination and an amount reads back as them.
pub proof fn lemma_coin_round_trip(d: Seq<char>, a: u128)
    requires
        d.len() > 0,
        coin_bytes(d, a).len() < usize_limit(),
    ensures
        coin_at(coin_bytes(d, a)) == Ok::<CoinView, TranslationError>((d, a)),
{
    let e = Seq::<WireField>::empty();
    let f1 = appended(e, 1, encode_utf8(d));
    let cfs = coin_fields(d, a);
    lemma_utf8_nonempty(d);
    lemma_amount_text_round_trip(a);
    lemma_wire_ok_appended(e, 1, encode_utf8(d));
    lemma_wire_ok_appended(f1, 2, decimal_text(a as nat));
    lemma_values_in_wire(cfs);
    assert(decimal_text(a as nat).len() > 0) by {
        reveal_with_fuel(decimal_text, 2);
    }
    lemma_values_appended(e, 1, encode_utf8(d), 1);
    lemma_values_appended(e, 1, encode_utf8(d), 2);
    lemma_values_appended(f1, 2, decimal_text(a as nat), 1);
    lemma_values_appended(f1, 2, decimal_text(a as nat), 2);
    assert(values_at(e, 1) =~= Seq::<Seq<u8>>::empty());
    assert(values_at(e, 2) =~= Seq::<Seq<u8>>::empty());
    assert(values_at(cfs, 1) =~= seq![encode_utf8(d)]);
    assert(values_at(cfs, 2) =~= seq![decimal_text(a as nat)]);
    assert(values_in(coin_bytes(d, a), 1) == Some(values_at(cfs, 1)));
    assert(values_in(coin_bytes(d, a), 2) == Some(values_at(cfs, 2)));
    lemma_text_of_utf8(coin_bytes(d, a), 1, d);
}

/// Coin messages made from coins read back as those coins.
pub proof fn lemma_coins_round_trip(cs: Seq<CoinView>)
    requires
        denoms_nonempty(cs),
        coins_fit(cs),
    ensures
        coins_at(coin_list_bytes(cs)) == Ok::<Seq<CoinView>, TranslationError>(cs),
    decreases cs.len(),
{
    let bs = coin_list_bytes(cs);
    if cs.len() > 0 {
        let init = cs.drop_last();
        assert(denoms_nonempty(init)) by {
            assert forall|i: int| 0 <= i < init.len() implies (#[trigger] init[i]).0.len() > 0 by {
                assert(init[i] == cs[i]);
            }
        }
        assert(coins_fit(init)) by {
            assert forall|i: int| 0 <= i < init.len() implies #[trigger] coin_bytes(
                init[i].0,
                init[i].1,
            ).len() < usize_limit() by {
                assert(init[i] == cs[i]);
            }
        }
        assert(coin_bytes(cs.last().0, cs.last().1).len() < usize_limit());
        lemma_coins_round_trip(init);
        assert(bs.drop_last() =~= coin_list_bytes(init));
        lemma_coin_round_trip(cs.last().0, cs.last().1);
        assert(init.push(cs.last()) =~= cs);
    } else {
        assert(cs =~= Seq::<CoinView>::empty());
    }
}

/// Scaling coins by one gives back their own messages.
pub proof fn lemma_scaled_coins_one(cs: Seq<CoinView>)
    ensures
        scaled_coins(cs, Decimal { atomics: DECIMAL_FRACTIONAL }) == Ok::<
            Seq<Seq<u8>>,
            TranslationError,
        >(coin_list_bytes(cs)),
    decreases cs.len(),
{
    if cs.len() > 0 {
        lemma_scaled_coins_one(cs.drop_last());
        lemma_scaled_one(cs.last().1);
        assert(coin_list_bytes(cs.drop_last()).push(coin_bytes(cs.last().0, cs.last().1))
            =~= coin_list_bytes(cs));
    } else {
        assert(coin_list_bytes(cs) =~= Seq::<Seq<u8>>::empty());
    }
}

} // verus!
