//! Fractions, the scaling of amounts by a fraction, and amounts as decimal text.
use vstd::arithmetic::div_mod::*;
use vstd::arithmetic::mul::*;
use vstd::prelude::*;

use crate::error::TranslationError;

verus! {

/// The number of atomic units in one whole: a fraction has 18 decimal places.
pub const DECIMAL_FRACTIONAL: u128 = 1_000_000_000_000_000_000;

/// A non-negative fixed-point number with 18 decimal places; its value is
/// `atomics / 10^18`.
#[derive(Debug, Clone, Copy, PartialEq, Eq, Structural)]
pub struct Decimal {
    pub atomics: u128,
}

impl Decimal {
    /// The decimal `atomics / 10^18`.
    pub fn raw(atomics: u128) -> (r: Decimal)
        ensures
            r.atomics == atomics,
    {
        Decimal { atomics }
    }

    /// The decimal 1.0.
    pub fn one() -> (r: Decimal)
        ensures
            r.atomics == DECIMAL_FRACTIONAL,
    {
        Decimal { atomics: DECIMAL_FRACTIONAL }
    }

    /// `x` percent.
    pub fn percent(x: u64) -> (r: Decimal)
        ensures
            r.atomics == x as nat * 10_000_000_000_000_000,
    {
        Decimal { atomics: x as u128 * 10_000_000_000_000_000 }
    }
}

/// `amount * atomics / 10^18`, rounded down, as an unbounded integer.
pub open spec fn floor_scaled(amount: nat, atomics: nat) -> nat {
    (amount * atomics) / (DECIMAL_FRACTIONAL as nat)
}

/// `amount * atomics / 10^18`, rounded up, as an unbounded integer.
pub open spec fn ceil_scaled(amount: nat, atomics: nat) -> nat {
    floor_scaled(amount, atomics) + if (amount * atomics) % (DECIMAL_FRACTIONAL as nat) == 0 {
        0nat
    } else {
        1nat
    }
}

/// What scaling `amount` by `fraction` gives: the product rounded down, or
/// `Overflow` where the exact product, before rounding, exceeds the largest
/// 128-bit amount.
pub open spec fn scaled(amount: u128, fraction: Decimal) -> Result<u128, TranslationError> {
    if (amount as nat) * (fraction.atomics as nat) > (u128::MAX as nat) * (DECIMAL_FRACTIONAL as nat) {
        Err(TranslationError::Overflow)
    } else {
        Ok(floor_scaled(amount as nat, fraction.atomics as nat) as u128)
    }
}

/// Relies on `cosmwasm_std::Uint128::checked_mul_floor` with a
/// `cosmwasm_std::Decimal`: the full product divided by 10^18, rounded down,
/// and an error where the quotient does not fit in 128 bits.
#[verifier::external_body]
fn checked_mul_floor(amount: u128, atomics: u128) -> (r: Option<u128>)
    ensures
        r == (if floor_scaled(amount as nat, atomics as nat) <= u128::MAX {
            Some(floor_scaled(amount as nat, atomics as nat) as u128)
        } else {
            None::<u128>
        }),
{
    let fraction = cosmwasm_std::Decimal::raw(atomics);
    match cosmwasm_std::Uint128::new(amount).checked_mul_floor(fraction) {
        Ok(v) => Some(v.u128()),
        Err(_) => None,
    }
}

/// Relies on `cosmwasm_std::Uint128::checked_mul_ceil` with a
/// `cosmwasm_std::Decimal`: the full product divided by 10^18, rounded up,
/// and an error where that does not fit in 128 bits.
#[verifier::external_body]
fn checked_mul_ceil(amount: u128, atomics: u128) -> (r: Option<u128>)
    ensures
        r == (if ceil_scaled(amount as nat, atomics as nat) <= u128::MAX {
            Some(ceil_scaled(amount as nat, atomics as nat) as u128)
        } else {
            None::<u128>
        }),
{
    let fraction = cosmwasm_std::Decimal::raw(atomics);
    match cosmwasm_std::Uint128::new(amount).checked_mul_ceil(fraction) {
        Ok(v) => Some(v.u128()),
        Err(_) => None,
    }
}

/// The product rounded up fits exactly when the exact product does.
proof fn lemma_ceil_fits(p: nat)
    ensures
        (p / (DECIMAL_FRACTIONAL as nat) + if p % (DECIMAL_FRACTIONAL as nat) == 0 {
            0nat
        } else {
            1nat
        }) <= u128::MAX <==> p <= (u128::MAX as nat) * (DECIMAL_FRACTIONAL as nat),
{
    let d = DECIMAL_FRACTIONAL as nat;
    let m = u128::MAX as nat;
    lemma_fundamental_div_mod(p as int, d as int);
    lemma_mod_bound(p as int, d as int);
    let q = p / d;
    let r = p % d;
    assert(p == d * q + r);
    if p <= m * d {
        if q > m {
            assert(d * q >= d * (m + 1)) by (nonlinear_arith)
                requires
                    q >= m + 1,
            ;
            assert(d * (m + 1) == m * d + d) by (nonlinear_arith);
        }
        if q == m && r != 0 {
            assert(d * q == m * d) by (nonlinear_arith)
                requires
                    q == m,
            ;
        }
    } else {
        if q < m {
            assert(d * q <= d * (m - 1)) by (nonlinear_arith)
                requires
                    q <= m - 1,
            ;
            assert(d * (m - 1) + d == m * d) by (nonlinear_arith);
        }
        if q <= m && r == 0 {
            assert(d * q <= m * d) by (nonlinear_arith)
                requires
                    q <= m,
            ;
        }
    }
}

/// Scales `amnt` by `fraction`, rounding down, and fails with `Overflow`
/// where the exact product exceeds the largest 128-bit amount.
pub fn new_amount_gauge_fraction(amnt: u128, fraction: Decimal) -> (r: Result<u128, TranslationError>)
    ensures
        r == scaled(amnt, fraction),
{
    proof {
        lemma_ceil_fits(amnt as nat * fraction.atomics as nat);
    }
    if checked_mul_ceil(amnt, fraction.atomics).is_none() {
        return Err(TranslationError::Overflow);
    }
    match checked_mul_floor(amnt, fraction.atomics) {
        Some(v) => Ok(v),
        None => Err(TranslationError::Overflow),
    }
}

/// Scaling rounds down and loses less than one unit: the result `v` satisfies
/// `v <= amount * fraction < v + 1`, stated here multiplied through by 10^18.
pub proof fn lemma_scale_floor(amount: u128, fraction: Decimal)
    ensures
        scaled(amount, fraction) matches Ok(v) ==> (v as nat) * (DECIMAL_FRACTIONAL as nat) <= (
        amount as nat) * (fraction.atomics as nat) && (amount as nat) * (fraction.atomics as nat) < (
        (v as nat) + 1) * (DECIMAL_FRACTIONAL as nat),
{
    let p = amount as nat * fraction.atomics as nat;
    let d = DECIMAL_FRACTIONAL as nat;
    lemma_fundamental_div_mod(p as int, d as int);
    lemma_mod_bound(p as int, d as int);
    let q = p / d;
    assert(p == d * q + p % d);
    lemma_mul_is_commutative(d as int, q as int);
    lemma_mul_is_distributive_add_other_way(d as int, q as int, 1);
}

/// Scaling the largest amount fails with `Overflow` exactly when the fraction
/// exceeds one; it never wraps or truncates.
pub proof fn lemma_overflow_boundary(fraction: Decimal)
    ensures
        scaled(u128::MAX, fraction) is Err <==> fraction.atomics > DECIMAL_FRACTIONAL,
        scaled(u128::MAX, fraction) matches Err(e) ==> e == TranslationError::Overflow,
{
    let m = u128::MAX as nat;
    let a = fraction.atomics as nat;
    let d = DECIMAL_FRACTIONAL as nat;
    if a > d {
        assert(m * a > m * d) by (nonlinear_arith)
            requires
                a > d,
                m > 0,
        ;
    } else {
        assert(m * a <= m * d) by (nonlinear_arith)
            requires
                a <= d,
        ;
    }
}

/// Scaling by one keeps the amount.
pub proof fn lemma_scaled_one(amount: u128)
    ensures
        scaled(amount, Decimal { atomics: DECIMAL_FRACTIONAL }) == Ok::<u128, TranslationError>(amount),
{
    lemma_div_by_multiple(amount as int, DECIMAL_FRACTIONAL as int);
    assert((amount as nat) * (DECIMAL_FRACTIONAL as nat) <= (u128::MAX as nat) * (
    DECIMAL_FRACTIONAL as nat)) by (nonlinear_arith)
        requires
            amount <= u128::MAX,
    ;
}

// ---------------------------------------------------------------------------
// Amounts as decimal text.
/// The decimal digits of `n`, most significant first, without leading zeros.
pub open spec fn decimal_text(n: nat) -> Seq<u8>
    decreases n,
{
    if n < 10 {
        seq![(48 + n) as u8]
    } else {
        decimal_text(n / 10).push((48 + n % 10) as u8)
    }
}

pub open spec fn is_digit(b: u8) -> bool {
    48 <= b && b <= 57
}

/// The number that a sequence of decimal digits denotes.
pub open spec fn digits_value(s: Seq<u8>) -> nat
    decreases s.len(),
{
    if s.len() == 0 {
        0
    } else {
        digits_value(s.drop_last()) * 10 + (s.last() - 48) as nat
    }
}

/// The digits of an amount text: the text without one leading `+`.
pub open spec fn amount_digits(s: Seq<u8>) -> Seq<u8> {
    if s.len() > 0 && s[0] == 43 {
        s.drop_first()
    } else {
        s
    }
}

/// The amount that `s` denotes in base 10: an optional `+`, then at least one
/// digit and nothing else, with a value that fits in 128 bits.
pub open spec fn amount_of_text(s: Seq<u8>) -> Option<u128> {
    let d = amount_digits(s);
    if d.len() > 0 && (forall|i: int| 0 <= i < d.len() ==> is_digit(#[trigger] d[i]))
        && digits_value(d) <= u128::MAX {
        Some(digits_value(d) as u128)
    } else {
        None
    }
}

/// The decimal text of `n`.
pub fn amount_text(n: u128) -> (r: Vec<u8>)
    ensures
        r@ == decimal_text(n as nat),
    decreases n,
{
    if n < 10 {
        let mut v: Vec<u8> = Vec::new();
        v.push((48 + n) as u8);
        proof {
            assert(v@ =~= seq![(48 + n) as u8]);
        }
        v
    } else {
        let mut v = amount_text(n / 10);
        v.push((48 + n % 10) as u8);
        v
    }
}

/// Reads an amount from its decimal text.
pub fn parse_amount(s: &[u8]) -> (r: Option<u128>)
    ensures
        r == amount_of_text(s@),
{
    let start: usize = if s.len() > 0 && s[0] == 43 {
        1
    } else {
        0
    };
    let ghost d = amount_digits(s@);
    assert(d =~= s@.subrange(start as int, s@.len() as int));
    if start == s.len() {
        return None;
    }
    let mut acc: u128 = 0;
    let mut i: usize = start;
    while i < s.len()
        invariant
            start <= i <= s@.len(),
            d =~= s@.subrange(start as int, s@.len() as int),
            d == amount_digits(s@),
            forall|j: int| start <= j < i ==> is_digit(#[trigger] s@[j]),
            acc as nat == digits_value(s@.subrange(start as int, i as int)),
        decreases s@.len() - i,
    {
        let b = s[i];
        if b < 48 || b > 57 {
            assert(d[i - start] == b);
            proof {
                let k = (i - start) as int;
                assert(!is_digit(d[k]));
                assert(!(forall|j: int| 0 <= j < d.len() ==> is_digit(#[trigger] d[j])));
                assert(amount_of_text(s@) is None);
            }
            return None;
        }
        let digit = (b - 48) as u128;
        let ghost prefix = s@.subrange(start as int, i + 1);
        assert(prefix.drop_last() =~= s@.subrange(start as int, i as int));
        if acc > (u128::MAX - digit) / 10 {
            proof {
                assert(digits_value(prefix) == acc * 10 + digit);
                assert(acc * 10 + digit > u128::MAX) by (nonlinear_arith)
                    requires
                        acc > (u128::MAX - digit) / 10,
                        digit <= 9,
                ;
                if forall|k: int| 0 <= k < d.len() ==> is_digit(#[trigger] d[k]) {
                    lemma_digits_value_prefix_bound(d, (i - start + 1) as int);
                    assert(d.subrange(0, (i - start + 1) as int) =~= prefix);
                    assert(digits_value(d) > u128::MAX);
                }
                assert(amount_of_text(s@) is None);
            }
            return None;
        }
        acc = acc * 10 + digit;
        i = i + 1;
    }
    assert(s@.subrange(start as int, s@.len() as int) =~= d);
    Some(acc)
}

/// A longer run of digits never denotes less than its prefix.
proof fn lemma_digits_value_prefix_bound(d: Seq<u8>, k: int)
    requires
        0 <= k <= d.len(),
        forall|i: int| 0 <= i < d.len() ==> is_digit(#[trigger] d[i]),
    ensures
        digits_value(d.subrange(0, k)) <= digits_value(d),
    decreases d.len(),
{
    if k < d.len() {
        let dl = d.drop_last();
        assert(dl.subrange(0, k) =~= d.subrange(0, k));
        assert forall|i: int| 0 <= i < dl.len() implies is_digit(#[trigger] dl[i]) by {
            assert(dl[i] == d[i]);
        }
        lemma_digits_value_prefix_bound(dl, k);
    } else {
        assert(d.subrange(0, k) =~= d);
    }
}

/// Decimal text is all digits and reads back as the number it was made from.
pub proof fn lemma_amount_text_round_trip(n: u128)
    ensures
        amount_of_text(decimal_text(n as nat)) == Some(n),
{
    lemma_decimal_text_digits(n as nat);
    let t = decimal_text(n as nat);
    assert(t[0] != 43);
    assert(amount_digits(t) == t);
}

proof fn lemma_decimal_text_digits(n: nat)
    ensures
        decimal_text(n).len() > 0,
        forall|i: int| 0 <= i < decimal_text(n).len() ==> is_digit(#[trigger] decimal_text(n)[i]),
        digits_value(decimal_text(n)) == n,
    decreases n,
{
    if n < 10 {
        let t = decimal_text(n);
        assert(t.drop_last() =~= Seq::<u8>::empty());
        assert(digits_value(Seq::<u8>::empty()) == 0);
    } else {
        lemma_decimal_text_digits(n / 10);
        let t = decimal_text(n);
        assert(t.drop_last() =~= decimal_text(n / 10));
        lemma_fundamental_div_mod(n as int, 10);
        lemma_mul_is_commutative(10, (n / 10) as int);
        assert(t.last() == (48 + n % 10) as u8);
    }
}

} // verus!
