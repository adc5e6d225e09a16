//! Byte layout of persisted records.
//!
//! Every record is a fixed-size run of bytes: an eight-byte tag naming the
//! kind of record, then the fields in declaration order. Integers are
//! little-endian. A text field occupies `4 + max` bytes whatever it holds: a
//! four-byte length, the UTF-8 bytes, and zeros up to the field's capacity.

use vstd::bytes::*;
use vstd::prelude::*;
use vstd::slice::*;
use vstd::string::*;
use vstd::utf8::*;

verus! {

/// Width of the tag that opens every record.
pub const HEADER_LEN: usize = 8;

/// Width of an owner identifier.
pub const IDENTITY_LEN: usize = 32;

/// Width of the length that precedes the bytes of a text field.
pub const PREFIX_LEN: usize = 4;

/// Width of a 64-bit integer field.
pub const WORD_LEN: usize = 8;

/// `n` zero bytes.
pub open spec fn zeros(n: nat) -> Seq<u8> {
    Seq::new(n, |i: int| 0u8)
}

/// The eight bytes of an unsigned 64-bit field.
pub open spec fn word(v: u64) -> Seq<u8> {
    spec_u64_to_le_bytes(v)
}

/// The four bytes of a length or count.
pub open spec fn prefix(n: u32) -> Seq<u8> {
    spec_u32_to_le_bytes(n)
}

/// Two's complement image of a timestamp.
pub open spec fn timestamp_bits(t: i64) -> u64 {
    if t >= 0 {
        t as u64
    } else {
        (t + 0x1_0000_0000_0000_0000) as u64
    }
}

/// The timestamp whose two's complement image is `bits`.
pub open spec fn timestamp_of(bits: u64) -> i64 {
    if bits < 0x8000_0000_0000_0000 {
        bits as i64
    } else {
        (bits - 0x1_0000_0000_0000_0000) as i64
    }
}

/// The eight bytes of a timestamp field.
pub open spec fn timestamp(t: i64) -> Seq<u8> {
    word(timestamp_bits(t))
}

/// Number of bytes a text takes when stored, which is the length of its
/// UTF-8 encoding.
pub open spec fn text_len(chars: Seq<char>) -> nat {
    encode_utf8(chars).len()
}

/// Whether a text can be stored in a field of capacity `max`.
pub open spec fn fits(chars: Seq<char>, max: nat) -> bool {
    text_len(chars) <= max
}

/// The `4 + max` bytes of a text field of capacity `max`.
pub open spec fn text_field(chars: Seq<char>, max: nat) -> Seq<u8>
    recommends
        fits(chars, max),
        max <= u32::MAX,
{
    prefix(text_len(chars) as u32) + encode_utf8(chars) + zeros((max - text_len(chars)) as nat)
}

/// The unsigned 64-bit field that starts at offset `at`.
pub open spec fn word_at(bytes: Seq<u8>, at: int) -> u64
    recommends
        0 <= at,
        at + WORD_LEN <= bytes.len(),
{
    spec_u64_from_le_bytes(bytes.subrange(at, at + WORD_LEN))
}

/// The length or count that starts at offset `at`.
pub open spec fn prefix_at(bytes: Seq<u8>, at: int) -> u32
    recommends
        0 <= at,
        at + PREFIX_LEN <= bytes.len(),
{
    spec_u32_from_le_bytes(bytes.subrange(at, at + PREFIX_LEN))
}

/// The timestamp field that starts at offset `at`.
pub open spec fn timestamp_at(bytes: Seq<u8>, at: int) -> i64
    recommends
        0 <= at,
        at + WORD_LEN <= bytes.len(),
{
    timestamp_of(word_at(bytes, at))
}

/// The owner identifier that starts at offset `at`.
pub open spec fn identity_at(bytes: Seq<u8>, at: int) -> Seq<u8>
    recommends
        0 <= at,
        at + IDENTITY_LEN <= bytes.len(),
{
    bytes.subrange(at, at + IDENTITY_LEN)
}

/// The text held by the field of capacity `max` that starts at offset `at`,
/// if the field is sound: its length is within the capacity and the bytes it
/// counts are UTF-8. Bytes past the counted ones are not looked at.
pub open spec fn text_at(bytes: Seq<u8>, at: int, max: nat) -> Option<Seq<char>>
    recommends
        0 <= at,
        at + PREFIX_LEN + max <= bytes.len(),
{
    let len = prefix_at(bytes, at) as int;
    let body = bytes.subrange(at + PREFIX_LEN, at + PREFIX_LEN + len);
    if len <= max && valid_utf8(body) {
        Some(decode_utf8(body))
    } else {
        None
    }
}

/// A timestamp survives the passage through its two's complement image.
pub proof fn lemma_timestamp_bits_inverse(t: i64)
    ensures
        timestamp_of(timestamp_bits(t)) == t,
{
}

/// Every integer field has the width of its kind, whatever it holds.
pub proof fn lemma_field_widths()
    ensures
        forall|v: u64| #[trigger] word(v).len() == WORD_LEN,
        forall|n: u32| #[trigger] prefix(n).len() == PREFIX_LEN,
        forall|t: i64| #[trigger] timestamp(t).len() == WORD_LEN,
{
    lemma_auto_spec_u64_to_from_le_bytes();
    lemma_auto_spec_u32_to_from_le_bytes();
}

/// A text field is as wide as its capacity plus the length prefix.
pub proof fn lemma_text_field_width(chars: Seq<char>, max: nat)
    requires
        fits(chars, max),
    ensures
        text_field(chars, max).len() == PREFIX_LEN + max,
{
    lemma_auto_spec_u32_to_from_le_bytes();
}

/// Reading a word where one was written gives it back, whatever surrounds it.
pub proof fn lemma_word_at(before: Seq<u8>, v: u64, after: Seq<u8>)
    ensures
        word_at(before + word(v) + after, before.len() as int) == v,
{
    lemma_auto_spec_u64_to_from_le_bytes();
    let all = before + word(v) + after;
    let at = before.len() as int;
    assert(all.subrange(at, at + WORD_LEN) =~= word(v));
}

/// Reading a count where one was written gives it back.
pub proof fn lemma_prefix_at(before: Seq<u8>, n: u32, after: Seq<u8>)
    ensures
        prefix_at(before + prefix(n) + after, before.len() as int) == n,
{
    lemma_auto_spec_u32_to_from_le_bytes();
    let all = before + prefix(n) + after;
    let at = before.len() as int;
    assert(all.subrange(at, at + PREFIX_LEN) =~= prefix(n));
}

/// Reading a timestamp where one was written gives it back.
pub proof fn lemma_timestamp_at(before: Seq<u8>, t: i64, after: Seq<u8>)
    ensures
        timestamp_at(before + timestamp(t) + after, before.len() as int) == t,
{
    lemma_word_at(before, timestamp_bits(t), after);
    lemma_timestamp_bits_inverse(t);
}

/// Reading an identifier where one was written gives it back.
pub proof fn lemma_identity_at(before: Seq<u8>, id: Seq<u8>, after: Seq<u8>)
    requires
        id.len() == IDENTITY_LEN,
    ensures
        identity_at(before + id + after, before.len() as int) == id,
{
    let all = before + id + after;
    let at = before.len() as int;
    assert(all.subrange(at, at + IDENTITY_LEN) =~= id);
}

/// Reading a text field where one was written gives the text back.
pub proof fn lemma_text_at(before: Seq<u8>, chars: Seq<char>, max: nat, after: Seq<u8>)
    requires
        fits(chars, max),
        max <= u32::MAX,
    ensures
        text_at(before + text_field(chars, max) + after, before.len() as int, max) == Some(chars),
{
    lemma_auto_spec_u32_to_from_le_bytes();
    let len = text_len(chars);
    let field = text_field(chars, max);
    let all = before + field + after;
    let at = before.len() as int;
    assert(all.subrange(at, at + PREFIX_LEN) =~= prefix(len as u32));
    assert(all.subrange(at + PREFIX_LEN, at + PREFIX_LEN + len) =~= encode_utf8(chars));
    encode_utf8_valid_utf8(chars);
    encode_utf8_decode_utf8(chars);
}

/// A text that is read from a field fits that field.
pub proof fn lemma_text_at_fits(bytes: Seq<u8>, at: int, max: nat)
    requires
        0 <= at,
        at + PREFIX_LEN + max <= bytes.len(),
        text_at(bytes, at, max) is Some,
    ensures
        fits(text_at(bytes, at, max)->0, max),
{
    let len = prefix_at(bytes, at) as int;
    decode_utf8_encode_utf8(bytes.subrange(at + PREFIX_LEN, at + PREFIX_LEN + len));
}

/// Appends an unsigned 64-bit field.
pub(crate) fn put_word(buf: &mut Vec<u8>, v: u64)
    ensures
        final(buf)@ == old(buf)@ + word(v),
{
    let mut bytes = u64_to_le_bytes(v);
    buf.append(&mut bytes);
}

/// Appends a length or count.
pub(crate) fn put_prefix(buf: &mut Vec<u8>, n: u32)
    ensures
        final(buf)@ == old(buf)@ + prefix(n),
{
    let mut bytes = u32_to_le_bytes(n);
    buf.append(&mut bytes);
}

/// The two's complement image of a timestamp.
pub(crate) fn to_bits(t: i64) -> (bits: u64)
    ensures
        bits == timestamp_bits(t),
{
    if t >= 0 {
        t as u64
    } else {
        let lifted: u64 = (t - i64::MIN) as u64;
        lifted + 0x8000_0000_0000_0000
    }
}

/// The timestamp with the given two's complement image.
pub(crate) fn from_bits(bits: u64) -> (t: i64)
    ensures
        t == timestamp_of(bits),
{
    if bits < 0x8000_0000_0000_0000 {
        bits as i64
    } else {
        let lowered: i64 = (bits - 0x8000_0000_0000_0000) as i64;
        lowered + i64::MIN
    }
}

/// Appends a timestamp field.
pub(crate) fn put_timestamp(buf: &mut Vec<u8>, t: i64)
    ensures
        final(buf)@ == old(buf)@ + timestamp(t),
{
    put_word(buf, to_bits(t));
}

/// Appends the given bytes as they are.
pub(crate) fn put_bytes(buf: &mut Vec<u8>, src: &[u8])
    ensures
        final(buf)@ == old(buf)@ + src@,
{
    let mut i: usize = 0;
    while i < src.len()
        invariant
            i <= src@.len(),
            buf@ == old(buf)@ + src@.subrange(0, i as int),
        decreases src@.len() - i,
    {
        buf.push(src[i]);
        i += 1;
    }
    assert(src@.subrange(0, i as int) =~= src@);
}

/// Appends `n` zero bytes.
pub(crate) fn put_zeros(buf: &mut Vec<u8>, n: usize)
    ensures
        final(buf)@ == old(buf)@ + zeros(n as nat),
{
    let mut i: usize = 0;
    while i < n
        invariant
            i <= n,
            buf@ == old(buf)@ + zeros(i as nat),
        decreases n - i,
    {
        buf.push(0u8);
        i += 1;
    }
}

/// Whether `text` can be stored in a field of capacity `max`.
pub fn text_fits(text: &str, max: usize) -> (b: bool)
    ensures
        b == fits(text@, max as nat),
{
    let raw = text.as_bytes();
    proof {
        axiom_spec_len(raw);
    }
    raw.len() <= max
}

/// Appends a text field of capacity `max`. The text is written whole: one
/// that does not fit is the caller's to reject.
pub(crate) fn put_text(buf: &mut Vec<u8>, text: &str, max: usize)
    requires
        fits(text@, max as nat),
        max <= u32::MAX,
    ensures
        final(buf)@ == old(buf)@ + text_field(text@, max as nat),
{
    let raw = text.as_bytes();
    let len: usize = raw.len();
    put_prefix(buf, len as u32);
    put_bytes(buf, raw);
    put_zeros(buf, max - len);
    assert(buf@ =~= old(buf)@ + text_field(text@, max as nat));
}

/// Reads the unsigned 64-bit field at offset `at`.
pub(crate) fn get_word(bytes: &[u8], at: usize) -> (v: u64)
    requires
        at + WORD_LEN <= bytes@.len(),
    ensures
        v == word_at(bytes@, at as int),
{
    proof {
        axiom_spec_len(bytes);
    }
    u64_from_le_bytes(slice_subrange(bytes, at, at + WORD_LEN))
}

/// Reads the length or count at offset `at`.
pub(crate) fn get_prefix(bytes: &[u8], at: usize) -> (n: u32)
    requires
        at + PREFIX_LEN <= bytes@.len(),
    ensures
        n == prefix_at(bytes@, at as int),
{
    proof {
        axiom_spec_len(bytes);
    }
    u32_from_le_bytes(slice_subrange(bytes, at, at + PREFIX_LEN))
}

/// Reads the timestamp field at offset `at`.
pub(crate) fn get_timestamp(bytes: &[u8], at: usize) -> (t: i64)
    requires
        at + WORD_LEN <= bytes@.len(),
    ensures
        t == timestamp_at(bytes@, at as int),
{
    from_bits(get_word(bytes, at))
}

/// Reads the owner identifier at offset `at`.
pub(crate) fn get_identity(bytes: &[u8], at: usize) -> (id: [u8; IDENTITY_LEN])
    requires
        at + IDENTITY_LEN <= bytes@.len(),
    ensures
        id@ == identity_at(bytes@, at as int),
{
    proof {
        axiom_spec_len(bytes);
    }
    let mut id = [0u8; IDENTITY_LEN];
    let mut i: usize = 0;
    while i < IDENTITY_LEN
        invariant
            i <= IDENTITY_LEN,
            at + IDENTITY_LEN <= bytes@.len() <= usize::MAX,
            forall|j: int| 0 <= j < i ==> id@[j] == bytes@[at + j],
        decreases IDENTITY_LEN - i,
    {
        id[i] = bytes[at + i];
        i += 1;
    }
    assert(id@ =~= identity_at(bytes@, at as int));
    id
}

/// `String::from_utf8` of the standard library: the string made of exactly
/// the given bytes, which it yields if and only if they are valid UTF-8.
#[verifier::external_body]
fn string_from_utf8(bytes: Vec<u8>) -> (r: Option<String>)
    ensures
        r is Some <==> valid_utf8(bytes@),
        r matches Some(s) ==> encode_utf8(s@) == bytes@,
{
    match String::from_utf8(bytes) {
        Ok(s) => Some(s),
        Err(_) => None,
    }
}

/// Reads the text field of capacity `max` at offset `at`, or nothing where
/// the field is not sound.
pub(crate) fn get_text(bytes: &[u8], at: usize, max: usize) -> (r: Option<String>)
    requires
        at + PREFIX_LEN + max <= bytes@.len(),
    ensures
        match r {
            Some(s) => text_at(bytes@, at as int, max as nat) == Some(s@),
            None => text_at(bytes@, at as int, max as nat) is None,
        },
{
    proof {
        axiom_spec_len(bytes);
    }
    let len: usize = get_prefix(bytes, at) as usize;
    if len > max {
        return None;
    }
    let body = slice_to_vec(slice_subrange(bytes, at + PREFIX_LEN, at + PREFIX_LEN + len));
    match string_from_utf8(body) {
        Some(s) => {
            proof {
                encode_utf8_decode_utf8(s@);
            }
            Some(s)
        },
        None => None,
    }
}

} // verus!
