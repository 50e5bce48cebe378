//! The length-delimited binary wire format, read and written by field number.
//!
//! A message is a sequence of fields. Each field is a varint tag
//! `field_number * 8 + 2`, a varint length and that many bytes. Only
//! length-delimited fields occur in the messages this library handles:
//! strings, raw bytes and nested messages.
use vstd::prelude::*;
use vstd::utf8::*;

use crate::error::TranslationError;

verus! {


/// A field as it stands in a message: its number and its bytes.
pub type WireField = (u32, Seq<u8>);

/// The unsigned LEB128 encoding of `n`: seven bits per byte, least
/// significant first, the top bit set on every byte but the last.
pub open spec fn varint(n: nat) -> Seq<u8>
    decreases n,
{
    if n < 128 {
        seq![n as u8]
    } else {
        seq![((n % 128) + 128) as u8] + varint(n / 128)
    }
}

/// Field numbers that the format admits.
pub open spec fn valid_field_number(n: u32) -> bool {
    1 <= n && n <= 536870911
}

/// One length-delimited field: tag, length, bytes.
pub open spec fn len_field(n: u32, data: Seq<u8>) -> Seq<u8> {
    varint(n as nat * 8 + 2) + varint(data.len()) + data
}

/// The bytes of a message made of the fields `fs`, in order.
pub open spec fn wire_of(fs: Seq<WireField>) -> Seq<u8>
    decreases fs.len(),
{
    if fs.len() == 0 {
        Seq::empty()
    } else {
        len_field(fs[0].0, fs[0].1) + wire_of(fs.drop_first())
    }
}

/// Every field of `fs` has an admissible number.
pub open spec fn wire_ok(fs: Seq<WireField>) -> bool {
    forall|i: int| 0 <= i < fs.len() ==> valid_field_number(#[trigger] fs[i].0)
}

/// The values of field `n` in `fs`, in wire order.
pub open spec fn values_at(fs: Seq<WireField>, n: u32) -> Seq<Seq<u8>>
    decreases fs.len(),
{
    if fs.len() == 0 {
        Seq::empty()
    } else if fs[0].0 == n {
        seq![fs[0].1] + values_at(fs.drop_first(), n)
    } else {
        values_at(fs.drop_first(), n)
    }
}

/// The fields of a repeated field `n` with the values `ds`.
pub open spec fn repeated(n: u32, ds: Seq<Seq<u8>>) -> Seq<WireField> {
    ds.map_values(|d: Seq<u8>| (n, d))
}

/// `fs` with field `(n, data)` added, unless `data` is empty: a singular
/// field with an empty value is left out of the message.
pub open spec fn appended(fs: Seq<WireField>, n: u32, data: Seq<u8>) -> Seq<WireField> {
    if data.len() == 0 {
        fs
    } else {
        fs.push((n, data))
    }
}

// ---------------------------------------------------------------------------
// Facts about the encoding.
pub proof fn lemma_varint_nonempty(n: nat)
    ensures
        varint(n).len() >= 1,
{
    reveal_with_fuel(varint, 2);
}

pub proof fn lemma_wire_concat(a: Seq<WireField>, b: Seq<WireField>)
    ensures
        wire_of(a + b) == wire_of(a) + wire_of(b),
    decreases a.len(),
{
    if a.len() == 0 {
        assert(a + b =~= b);
        assert(wire_of(a) + wire_of(b) =~= wire_of(b));
    } else {
        assert((a + b).drop_first() =~= a.drop_first() + b);
        lemma_wire_concat(a.drop_first(), b);
        assert(wire_of(a + b) =~= wire_of(a) + wire_of(b));
    }
}

pub proof fn lemma_values_concat(a: Seq<WireField>, b: Seq<WireField>, n: u32)
    ensures
        values_at(a + b, n) == values_at(a, n) + values_at(b, n),
    decreases a.len(),
{
    if a.len() == 0 {
        assert(a + b =~= b);
        assert(values_at(a, n) + values_at(b, n) =~= values_at(b, n));
    } else {
        assert((a + b).drop_first() =~= a.drop_first() + b);
        lemma_values_concat(a.drop_first(), b, n);
        assert(values_at(a + b, n) =~= values_at(a, n) + values_at(b, n));
    }
}

pub proof fn lemma_values_repeated(m: u32, ds: Seq<Seq<u8>>, n: u32)
    ensures
        values_at(repeated(m, ds), n) == (if m == n {
            ds
        } else {
            Seq::<Seq<u8>>::empty()
        }),
    decreases ds.len(),
{
    if ds.len() == 0 {
        assert(repeated(m, ds) =~= Seq::<WireField>::empty());
        assert(ds =~= Seq::<Seq<u8>>::empty());
    } else {
        assert(repeated(m, ds).drop_first() =~= repeated(m, ds.drop_first()));
        lemma_values_repeated(m, ds.drop_first(), n);
        if m == n {
            assert(ds =~= seq![ds[0]] + ds.drop_first());
        }
    }
}

pub proof fn lemma_values_single(m: u32, d: Seq<u8>, n: u32)
    ensures
        values_at(seq![(m, d)], n) == (if m == n {
            seq![d]
        } else {
            Seq::<Seq<u8>>::empty()
        }),
{
    let fs = seq![(m, d)];
    assert(fs.drop_first() =~= Seq::<WireField>::empty());
    assert(values_at(fs.drop_first(), n) == Seq::<Seq<u8>>::empty());
    if m == n {
        assert(seq![d] + Seq::<Seq<u8>>::empty() =~= seq![d]);
    }
}

pub proof fn lemma_wire_ok_concat(a: Seq<WireField>, b: Seq<WireField>)
    requires
        wire_ok(a),
        wire_ok(b),
    ensures
        wire_ok(a + b),
{
    assert forall|i: int| 0 <= i < (a + b).len() implies valid_field_number(#[trigger] (a + b)[i].0) by {
        if i < a.len() {
            assert((a + b)[i] == a[i]);
        } else {
            assert((a + b)[i] == b[i - a.len()]);
        }
    }
}

pub proof fn lemma_wire_ok_repeated(n: u32, ds: Seq<Seq<u8>>)
    requires
        valid_field_number(n),
    ensures
        wire_ok(repeated(n, ds)),
{
}

/// Adding a field adds its value to the values of its number, and nothing to
/// those of any other.
pub proof fn lemma_values_appended(fs: Seq<WireField>, n: u32, d: Seq<u8>, m: u32)
    ensures
        values_at(appended(fs, n, d), m) == values_at(fs, m) + (if d.len() > 0 && n == m {
            seq![d]
        } else {
            Seq::<Seq<u8>>::empty()
        }),
{
    if d.len() == 0 {
        assert(values_at(fs, m) + Seq::<Seq<u8>>::empty() =~= values_at(fs, m));
    } else {
        assert(fs.push((n, d)) =~= fs + seq![(n, d)]);
        lemma_values_concat(fs, seq![(n, d)], m);
        lemma_values_single(n, d, m);
    }
}

pub proof fn lemma_wire_ok_appended(fs: Seq<WireField>, n: u32, d: Seq<u8>)
    requires
        wire_ok(fs),
        valid_field_number(n),
    ensures
        wire_ok(appended(fs, n, d)),
{
    if d.len() > 0 {
        assert forall|i: int| 0 <= i < fs.push((n, d)).len() implies valid_field_number(
            #[trigger] fs.push((n, d))[i].0,
        ) by {
            if i < fs.len() {
                assert(fs.push((n, d))[i] == fs[i]);
            }
        }
    }
}

// ---------------------------------------------------------------------------
// What the decoder reads.
/// 2^64: varints are read into 64 bits.
pub open spec fn two_pow_64() -> nat {
    0x1_0000_0000_0000_0000
}

/// One more than the largest `usize`: lengths are read into a `usize`.
pub open spec fn usize_limit() -> nat {
    usize::MAX as nat + 1
}

/// The varint at the front of `s`, read as its `k`-th byte onward of at most
/// ten: its value before truncation to 64 bits, and the number of bytes read.
pub open spec fn read_varint_from(s: Seq<u8>, k: nat) -> Option<(nat, nat)>
    decreases 10 - k,
{
    if k >= 10 || s.len() == 0 {
        None
    } else if s[0] < 128 {
        Some((s[0] as nat, 1))
    } else {
        match read_varint_from(s.drop_first(), k + 1) {
            Some((v, n)) => Some(((s[0] - 128) as nat + 128 * v, n + 1)),
            None => None,
        }
    }
}

/// The varint at the front of `s`: its value and its length in bytes.
pub open spec fn read_varint(s: Seq<u8>) -> Option<(nat, nat)> {
    read_varint_from(s, 0)
}

/// A field as the decoder reads it: its number, its wire type, and its
/// content (for a length-delimited field, the bytes it holds).
pub type ParsedField = (u32, u8, Seq<u8>);

/// `f` in front of the fields `rest`, if those were read.
pub open spec fn cons_field(f: ParsedField, rest: Option<Seq<ParsedField>>) -> Option<Seq<ParsedField>> {
    match rest {
        Some(fs) => Some(seq![f] + fs),
        None => None,
    }
}

/// The fields of `s` as the decoder reads them, or `None` where it rejects
/// `s`. Each field is a varint tag of at most ten bytes, read into 64 bits,
/// whose field number (the tag divided by 8) is between 1 and 536870911 and
/// whose wire type (the tag modulo 8) is 0 (a varint follows), 1 (8 bytes
/// follow), 2 (a varint length, read into a `usize`, then that many bytes) or
/// 5 (4 bytes follow).
pub open spec fn parse_fields(s: Seq<u8>) -> Option<Seq<ParsedField>>
    decreases s.len(),
{
    if s.len() == 0 {
        Some(Seq::empty())
    } else {
        match read_varint(s) {
            None => None,
            Some((t0, k)) => {
                let t = t0 % two_pow_64();
                let n = t / 8;
                let wt = t % 8;
                if !(1 <= k && k <= s.len()) || !(1 <= n && n <= 536870911) {
                    None
                } else {
                    let r = s.subrange(k as int, s.len() as int);
                    if wt == 0 {
                        match read_varint(r) {
                            None => None,
                            Some((_v, j)) => if 1 <= j && j <= r.len() {
                                cons_field(
                                    (n as u32, 0u8, r.subrange(0, j as int)),
                                    parse_fields(r.subrange(j as int, r.len() as int)),
                                )
                            } else {
                                None
                            },
                        }
                    } else if wt == 1 {
                        if r.len() >= 8 {
                            cons_field(
                                (n as u32, 1u8, r.subrange(0, 8)),
                                parse_fields(r.subrange(8, r.len() as int)),
                            )
                        } else {
                            None
                        }
                    } else if wt == 2 {
                        match read_varint(r) {
                            None => None,
                            Some((l0, j)) => {
                                let l = (l0 % two_pow_64()) % usize_limit();
                                if 1 <= j && j <= r.len() && l <= r.len() - j {
                                    cons_field(
                                        (n as u32, 2u8, r.subrange(j as int, (j + l) as int)),
                                        parse_fields(r.subrange((j + l) as int, r.len() as int)),
                                    )
                                } else {
                                    None
                                }
                            },
                        }
                    } else if wt == 5 {
                        if r.len() >= 4 {
                            cons_field(
                                (n as u32, 5u8, r.subrange(0, 4)),
                                parse_fields(r.subrange(4, r.len() as int)),
                            )
                        } else {
                            None
                        }
                    } else {
                        None
                    }
                }
            },
        }
    }
}

/// The decoder accepts `s`.
pub open spec fn bufany_parses(s: Seq<u8>) -> bool {
    parse_fields(s) is Some
}

/// The bytes of every field `n` of `pfs`, in order, or `None` if one of them
/// is not length-delimited.
pub open spec fn field_values(pfs: Seq<ParsedField>, n: u32) -> Option<Seq<Seq<u8>>>
    decreases pfs.len(),
{
    if pfs.len() == 0 {
        Some(Seq::empty())
    } else {
        match field_values(pfs.drop_first(), n) {
            None => None,
            Some(rest) => if pfs[0].0 != n {
                Some(rest)
            } else if pfs[0].1 == 2 {
                Some(seq![pfs[0].2] + rest)
            } else {
                None
            },
        }
    }
}

/// The values of field `n` of the message `buf`, in wire order; `None` where
/// the decoder rejects `buf` or a value of field `n` is not length-delimited.
pub open spec fn values_in(buf: Seq<u8>, n: u32) -> Option<Seq<Seq<u8>>> {
    match parse_fields(buf) {
        Some(pfs) => field_values(pfs, n),
        None => None,
    }
}

/// Every value of field `n`.
pub open spec fn repeated_value(buf: Seq<u8>, n: u32) -> Result<Seq<Seq<u8>>, TranslationError> {
    match values_in(buf, n) {
        None => Err(TranslationError::MalformedPayload),
        Some(vs) => Ok(vs),
    }
}

/// The raw first value of field `n`.
pub open spec fn bytes_value(buf: Seq<u8>, n: u32) -> Result<Seq<u8>, TranslationError> {
    match values_in(buf, n) {
        None => Err(TranslationError::MalformedPayload),
        Some(vs) => if vs.len() == 0 {
            Err(TranslationError::MissingField)
        } else {
            Ok(vs[0])
        },
    }
}

/// The text of the first value of field `n`.
pub open spec fn text_value(buf: Seq<u8>, n: u32) -> Result<Seq<char>, TranslationError> {
    match bytes_value(buf, n) {
        Err(e) => Err(e),
        Ok(b) => if valid_utf8(b) {
            Ok(decode_utf8(b))
        } else {
            Err(TranslationError::InvalidEncoding)
        },
    }
}

/// 128 to the power `j`.
pub open spec fn pow128(j: nat) -> nat
    decreases j,
{
    if j == 0 {
        1
    } else {
        128 * pow128((j - 1) as nat)
    }
}

proof fn lemma_varint_len(n: nat, j: nat)
    requires
        j >= 1,
        n < pow128(j),
    ensures
        varint(n).len() <= j,
    decreases j,
{
    if n >= 128 {
        assert(j >= 2) by {
            if j == 1 {
                assert(pow128(1) == 128 * pow128(0));
            }
        }
        assert(n / 128 < pow128((j - 1) as nat)) by {
            assert(pow128(j) == 128 * pow128((j - 1) as nat));
            assert(n / 128 < pow128((j - 1) as nat)) by (nonlinear_arith)
                requires
                    n < 128 * pow128((j - 1) as nat),
            ;
        }
        lemma_varint_len(n / 128, (j - 1) as nat);
    }
}

/// A value below 2^64 takes at most ten bytes.
pub proof fn lemma_varint_at_most_ten(n: nat)
    requires
        n < two_pow_64(),
    ensures
        varint(n).len() <= 10,
{
    reveal_with_fuel(pow128, 11);
    assert(pow128(10) == 1180591620717411303424);
    lemma_varint_len(n, 10);
}

/// The decoder reads back the value of a varint of at most ten bytes.
pub proof fn lemma_read_varint(n: nat, t: Seq<u8>, k: nat)
    requires
        varint(n).len() + k <= 10,
    ensures
        read_varint_from(varint(n) + t, k) == Some((n, varint(n).len())),
    decreases n,
{
    let s = varint(n) + t;
    lemma_varint_nonempty(n);
    if n < 128 {
        assert(s[0] == n as u8);
    } else {
        let rest = varint(n / 128);
        assert(varint(n) == seq![((n % 128) + 128) as u8] + rest);
        assert(s[0] == ((n % 128) + 128) as u8);
        assert(s.drop_first() =~= rest + t);
        lemma_read_varint(n / 128, t, k + 1);
        assert((n % 128) + 128 * (n / 128) == n) by (nonlinear_arith);
    }
}

/// The fields of the model as the decoder reads them.
pub open spec fn as_parsed(fs: Seq<WireField>) -> Seq<ParsedField> {
    fs.map_values(|f: WireField| (f.0, 2u8, f.1))
}

/// The decoder reads a message of the model back as its fields.
pub proof fn lemma_parse_wire(fs: Seq<WireField>)
    requires
        wire_ok(fs),
        wire_of(fs).len() < usize_limit(),
    ensures
        parse_fields(wire_of(fs)) == Some(as_parsed(fs)),
    decreases fs.len(),
{
    if fs.len() == 0 {
        assert(as_parsed(fs) =~= Seq::<ParsedField>::empty());
    } else {
        let n = fs[0].0;
        let d = fs[0].1;
        let rest = wire_of(fs.drop_first());
        let tag = n as nat * 8 + 2;
        let s = wire_of(fs);
        assert(valid_field_number(n));
        assert(usize::MAX as nat <= 0xffff_ffff_ffff_ffff);
        let tail = varint(d.len()) + d + rest;
        assert(s =~= varint(tag) + tail);
        assert(s.len() == varint(tag).len() + varint(d.len()).len() + d.len() + rest.len());
        lemma_varint_at_most_ten(tag);
        lemma_varint_at_most_ten(d.len());
        lemma_read_varint(tag, tail, 0);
        let k = varint(tag).len();
        lemma_varint_nonempty(tag);
        assert(tag % two_pow_64() == tag);
        assert(tag / 8 == n as nat);
        assert(tag % 8 == 2);
        let r = s.subrange(k as int, s.len() as int);
        assert(r =~= tail);
        assert(tail =~= varint(d.len()) + (d + rest));
        lemma_read_varint(d.len(), d + rest, 0);
        let j = varint(d.len()).len();
        lemma_varint_nonempty(d.len());
        assert(d.len() % two_pow_64() == d.len());
        assert((d.len() % two_pow_64()) % usize_limit() == d.len());
        assert(r.subrange((j + d.len()) as int, r.len() as int) =~= rest);
        assert(r.subrange(j as int, (j + d.len()) as int) =~= d);
        assert(wire_ok(fs.drop_first())) by {
            assert forall|i: int| 0 <= i < fs.drop_first().len() implies valid_field_number(
                #[trigger] fs.drop_first()[i].0,
            ) by {
                assert(fs.drop_first()[i] == fs[i + 1]);
            }
        }
        lemma_parse_wire(fs.drop_first());
        assert(as_parsed(fs) =~= seq![(n, 2u8, d)] + as_parsed(fs.drop_first()));
    }
}

pub proof fn lemma_field_values_model(fs: Seq<WireField>, n: u32)
    ensures
        field_values(as_parsed(fs), n) == Some(values_at(fs, n)),
    decreases fs.len(),
{
    if fs.len() > 0 {
        assert(as_parsed(fs).drop_first() =~= as_parsed(fs.drop_first()));
        lemma_field_values_model(fs.drop_first(), n);
    }
}

/// A message of the model that fits in memory is accepted, and each of its
/// fields reads back as the values written.
pub proof fn lemma_values_in_wire(fs: Seq<WireField>)
    requires
        wire_ok(fs),
        wire_of(fs).len() < usize_limit(),
    ensures
        bufany_parses(wire_of(fs)),
        forall|n: u32| #[trigger] values_in(wire_of(fs), n) == Some(values_at(fs, n)),
{
    lemma_parse_wire(fs);
    assert forall|n: u32| #[trigger] values_in(wire_of(fs), n) == Some(values_at(fs, n)) by {
        lemma_field_values_model(fs, n);
    }
}

// ---------------------------------------------------------------------------
// Trusted calls into the anybuf encoder and decoder, and into std's UTF-8 check.
/// Relies on `anybuf::Anybuf::append_bytes` (with `Anybuf::new` and
/// `Anybuf::into_vec`): a tag, a length and the bytes, and nothing at all when
/// `data` is empty.
#[verifier::external_body]
fn anybuf_field(n: u32, data: &[u8]) -> (r: Vec<u8>)
    requires
        valid_field_number(n),
    ensures
        r@ == wire_of(appended(Seq::empty(), n, data@)),
{
    anybuf::Anybuf::new().append_bytes(n, data).into_vec()
}

/// Relies on `anybuf::Anybuf::append_repeated_bytes` (with `Anybuf::new` and
/// `Anybuf::into_vec`): one field per item, in order, empty items kept.
#[verifier::external_body]
fn anybuf_repeated(n: u32, items: &[Vec<u8>]) -> (r: Vec<u8>)
    requires
        valid_field_number(n),
    ensures
        r@ == wire_of(repeated(n, items@.map_values(|v: Vec<u8>| v@))),
{
    anybuf::Anybuf::new().append_repeated_bytes(n, items).into_vec()
}

/// Relies on `anybuf::Bufany::deserialize`: it accepts exactly the sequences
/// of fields that `bufany_parses` describes.
#[verifier::external_body]
fn bufany_accepts(buf: &[u8]) -> (r: bool)
    ensures
        r == bufany_parses(buf@),
{
    anybuf::Bufany::deserialize(buf).is_ok()
}

/// The values of a list of byte vectors, as sequences.
pub open spec fn byte_lists_view(r: Option<Vec<Vec<u8>>>) -> Option<Seq<Seq<u8>>> {
    match r {
        Some(vs) => Some(vs@.map_values(|v: Vec<u8>| v@)),
        None => None,
    }
}

/// Relies on `anybuf::Bufany::deserialize` and `Bufany::repeated_bytes`: the
/// bytes of every value of field `n` in wire order, and nothing where the
/// decoder rejects `buf` or a value of field `n` is not length-delimited.
#[verifier::external_body]
fn bufany_values(buf: &[u8], n: u32) -> (r: Option<Vec<Vec<u8>>>)
    ensures
        byte_lists_view(r) == values_in(buf@, n),
{
    match anybuf::Bufany::deserialize(buf) {
        Ok(d) => d.repeated_bytes(n),
        Err(_) => None,
    }
}

/// Relies on `String::from_utf8`: it accepts exactly the valid UTF-8 byte
/// sequences and keeps the text they encode.
#[verifier::external_body]
fn utf8_text(b: Vec<u8>) -> (r: Option<String>)
    ensures
        r is Some <==> valid_utf8(b@),
        r matches Some(s) ==> s@ == decode_utf8(b@),
{
    String::from_utf8(b).ok()
}

// ---------------------------------------------------------------------------
// Field Writer.
/// Builds a message field by field; the order of the appends is the order on
/// the wire. Its view is the list of fields written so far.
pub struct FieldWriter {
    out: Vec<u8>,
    fields: Ghost<Seq<WireField>>,
}

impl View for FieldWriter {
    type V = Seq<WireField>;

    closed spec fn view(&self) -> Seq<WireField> {
        self.fields@
    }
}

/// The bytes of each writer of `ws`.
pub open spec fn writer_bytes(ws: Seq<FieldWriter>) -> Seq<Seq<u8>> {
    ws.map_values(|w: FieldWriter| wire_of(w@))
}

proof fn lemma_wire_appended(fs: Seq<WireField>, n: u32, data: Seq<u8>)
    ensures
        wire_of(appended(fs, n, data)) == wire_of(fs) + wire_of(appended(Seq::empty(), n, data)),
{
    if data.len() == 0 {
        assert(wire_of(fs) + wire_of(Seq::<WireField>::empty()) =~= wire_of(fs));
    } else {
        assert(fs.push((n, data)) =~= fs + seq![(n, data)]);
        assert(Seq::<WireField>::empty().push((n, data)) =~= seq![(n, data)]);
        lemma_wire_concat(fs, seq![(n, data)]);
    }
}

impl FieldWriter {
    #[verifier::type_invariant]
    spec fn inv(&self) -> bool {
        &&& self.out@ == wire_of(self.fields@)
        &&& wire_ok(self.fields@)
    }

    /// An empty message.
    pub fn new() -> (r: Self)
        ensures
            r@ == Seq::<WireField>::empty(),
    {
        FieldWriter { out: Vec::new(), fields: Ghost(Seq::empty()) }
    }

    /// Appends a singular bytes field; an empty value is left out.
    pub fn append_bytes(self, n: u32, data: &[u8]) -> (r: Self)
        requires
            valid_field_number(n),
        ensures
            r@ == appended(self@, n, data@),
    {
        proof {
            use_type_invariant(&self);
        }
        let FieldWriter { mut out, fields } = self;
        let mut b = anybuf_field(n, data);
        out.append(&mut b);
        proof {
            lemma_wire_appended(fields@, n, data@);
        }
        FieldWriter { out, fields: Ghost(appended(fields@, n, data@)) }
    }

    /// Appends a singular string field, as its UTF-8 bytes; an empty string
    /// is left out.
    pub fn append_string(self, n: u32, s: &str) -> (r: Self)
        requires
            valid_field_number(n),
        ensures
            r@ == appended(self@, n, encode_utf8(s@)),
    {
        self.append_bytes(n, s.as_bytes())
    }

    /// Appends a nested message as a singular field; an empty message is
    /// left out.
    pub fn append_message(self, n: u32, m: &FieldWriter) -> (r: Self)
        requires
            valid_field_number(n),
        ensures
            r@ == appended(self@, n, wire_of(m@)),
    {
        proof {
            use_type_invariant(m);
        }
        self.append_bytes(n, m.out.as_slice())
    }

    /// Appends one field `n` per item, in order, empty items kept.
    pub fn append_repeated_bytes(self, n: u32, items: &Vec<Vec<u8>>) -> (r: Self)
        requires
            valid_field_number(n),
        ensures
            r@ == self@ + repeated(n, items@.map_values(|v: Vec<u8>| v@)),
    {
        proof {
            use_type_invariant(&self);
        }
        let FieldWriter { mut out, fields } = self;
        let mut b = anybuf_repeated(n, items.as_slice());
        out.append(&mut b);
        let ghost added = repeated(n, items@.map_values(|v: Vec<u8>| v@));
        proof {
            lemma_wire_concat(fields@, added);
            lemma_wire_ok_repeated(n, items@.map_values(|v: Vec<u8>| v@));
            lemma_wire_ok_concat(fields@, added);
        }
        FieldWriter { out, fields: Ghost(fields@ + added) }
    }

    /// Appends one field `n` per nested message, in order, empty messages kept.
    pub fn append_repeated_message(self, n: u32, msgs: &Vec<FieldWriter>) -> (r: Self)
        requires
            valid_field_number(n),
        ensures
            r@ == self@ + repeated(n, writer_bytes(msgs@)),
    {
        let mut items: Vec<Vec<u8>> = Vec::new();
        let mut i: usize = 0;
        while i < msgs.len()
            invariant
                i <= msgs@.len(),
                items@.len() == i,
                forall|j: int| 0 <= j < i ==> (#[trigger] items@[j])@ == wire_of(msgs@[j]@),
            decreases msgs@.len() - i,
        {
            let m = &msgs[i];
            proof {
                use_type_invariant(m);
            }
            let bytes = vstd::slice::slice_to_vec(m.out.as_slice());
            items.push(bytes);
            i = i + 1;
        }
        assert(items@.map_values(|v: Vec<u8>| v@) =~= writer_bytes(msgs@));
        self.append_repeated_bytes(n, &items)
    }

    /// The finished message.
    pub fn into_bytes(self) -> (r: Vec<u8>)
        ensures
            r@ == wire_of(self@),
    {
        proof {
            use_type_invariant(&self);
        }
        self.out
    }
}

// ---------------------------------------------------------------------------
// Field Reader.
/// A well-formed message, queried field by field. Queries never change it.
pub struct DecodedView {
    buf: Vec<u8>,
}

impl View for DecodedView {
    type V = Seq<u8>;

    closed spec fn view(&self) -> Seq<u8> {
        self.buf@
    }
}

/// What a text query returns, with the text as characters.
pub open spec fn text_result(r: Result<String, TranslationError>) -> Result<Seq<char>, TranslationError> {
    match r {
        Ok(s) => Ok(s@),
        Err(e) => Err(e),
    }
}

/// What a bytes query returns, with the bytes as a sequence.
pub open spec fn bytes_result(r: Result<Vec<u8>, TranslationError>) -> Result<Seq<u8>, TranslationError> {
    match r {
        Ok(b) => Ok(b@),
        Err(e) => Err(e),
    }
}

/// What a repeated query returns, with the values as sequences.
pub open spec fn byte_lists_result(r: Result<Vec<Vec<u8>>, TranslationError>) -> Result<
    Seq<Seq<u8>>,
    TranslationError,
> {
    match r {
        Ok(vs) => Ok(vs@.map_values(|v: Vec<u8>| v@)),
        Err(e) => Err(e),
    }
}

/// Checks that the decoder accepts `buffer`.
pub fn decode(buffer: &[u8]) -> (r: Result<DecodedView, TranslationError>)
    ensures
        r matches Ok(v) ==> v@ == buffer@,
        r matches Err(e) ==> e == TranslationError::MalformedPayload,
        r is Err <==> !bufany_parses(buffer@),
{
    if bufany_accepts(buffer) {
        Ok(DecodedView { buf: vstd::slice::slice_to_vec(buffer) })
    } else {
        Err(TranslationError::MalformedPayload)
    }
}

impl DecodedView {
    /// Every value of field `n`, in wire order.
    pub fn repeated_bytes(&self, n: u32) -> (r: Result<Vec<Vec<u8>>, TranslationError>)
        ensures
            byte_lists_result(r) == repeated_value(self@, n),
    {
        match bufany_values(self.buf.as_slice(), n) {
            Some(vs) => Ok(vs),
            None => Err(TranslationError::MalformedPayload),
        }
    }

    /// The first value of field `n`.
    pub fn bytes(&self, n: u32) -> (r: Result<Vec<u8>, TranslationError>)
        ensures
            bytes_result(r) == bytes_value(self@, n),
    {
        let mut vs = self.repeated_bytes(n)?;
        if vs.len() == 0 {
            return Err(TranslationError::MissingField);
        }
        let b = vs.remove(0);
        Ok(b)
    }

    /// The first value of field `n`, read as UTF-8 text.
    pub fn string(&self, n: u32) -> (r: Result<String, TranslationError>)
        ensures
            text_result(r) == text_value(self@, n),
    {
        let b = self.bytes(n)?;
        match utf8_text(b) {
            Some(s) => Ok(s),
            None => Err(TranslationError::InvalidEncoding),
        }
    }

    /// The first value of field `n`, decoded as a nested message.
    pub fn message(&self, n: u32) -> (r: Result<DecodedView, TranslationError>)
        ensures
            match bytes_value(self@, n) {
                Err(e) => r == Err::<DecodedView, TranslationError>(e),
                Ok(b) => (r is Err <==> !bufany_parses(b)) && (r matches Ok(v) ==> v@ == b) && (
                r matches Err(e) ==> e == TranslationError::MalformedPayload),
            },
    {
        let b = self.bytes(n)?;
        decode(b.as_slice())
    }
}

} // verus!
