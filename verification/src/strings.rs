//! Specifications of the `String` operations that the library relies on.
//!
//! Byte offsets into a string are offsets into its UTF-8 encoding, which is
//! `encode_utf8` of its characters.

use vstd::prelude::*;
use vstd::utf8::*;

verus! {

/// The UTF-8 encoding of a string's characters.
pub open spec fn utf8_of(s: Seq<char>) -> Seq<u8> {
    encode_utf8(s)
}

/// The encoding of one character is that of its scalar value.
pub proof fn lemma_encode_one(c: char)
    ensures
        encode_utf8(seq![c]) == encode_scalar(c as u32),
        1 <= encode_utf8(seq![c]).len() <= 4,
{
    reveal_with_fuel(encode_utf8, 2);
    vstd::utf8::char_is_scalar(c);
    assert(seq![c].drop_first() =~= Seq::<char>::empty());
    assert(encode_scalar(c as u32) + Seq::<u8>::empty() =~= encode_scalar(c as u32));
}

/// Encoding distributes over concatenation.
pub proof fn lemma_encode_concat(a: Seq<char>, b: Seq<char>)
    ensures
        encode_utf8(a + b) == encode_utf8(a) + encode_utf8(b),
    decreases a.len(),
{
    if a.len() == 0 {
        assert(a + b =~= b);
        assert(encode_utf8(a) =~= Seq::<u8>::empty());
        assert(Seq::<u8>::empty() + encode_utf8(b) =~= encode_utf8(b));
    } else {
        lemma_encode_concat(a.drop_first(), b);
        assert((a + b).drop_first() =~= a.drop_first() + b);
        assert((a + b)[0] == a[0]);
        assert(encode_scalar(a[0] as u32) + (encode_utf8(a.drop_first()) + encode_utf8(b))
            =~= (encode_scalar(a[0] as u32) + encode_utf8(a.drop_first())) + encode_utf8(b));
    }
}

/// A string encodes to no bytes exactly when it has no characters.
pub proof fn lemma_encode_empty(s: Seq<char>)
    ensures
        (utf8_of(s).len() == 0) == (s.len() == 0),
{
    if s.len() > 0 {
        assert(s =~= seq![s[0]] + s.drop_first());
        lemma_encode_concat(seq![s[0]], s.drop_first());
        lemma_encode_one(s[0]);
    }
}

/// Wraps `str::strip_prefix` with a string pattern: the rest of `s` after
/// `prefix` when `s` starts with `prefix`, and `None` when it does not.
#[verifier::external_body]
pub(crate) fn str_strip_prefix(s: &str, prefix: &str) -> (r: Option<String>)
    ensures
        (r is Some) == prefix@.is_prefix_of(s@),
        r matches Some(rest) ==> rest@ == s@.skip(prefix@.len() as int),
{
    s.strip_prefix(prefix).map(String::from)
}

/// `s` with every match of the non-empty pattern `from` replaced by `to`,
/// matches taken from the left without overlapping.
pub open spec fn replaced(s: Seq<char>, from: Seq<char>, to: Seq<char>) -> Seq<char>
    decreases s.len(),
{
    if from.len() == 0 || s.len() < from.len() {
        s
    } else if s.take(from.len() as int) == from {
        to + replaced(s.skip(from.len() as int), from, to)
    } else {
        seq![s[0]] + replaced(s.drop_first(), from, to)
    }
}

/// Wraps `str::replace` with a non-empty string pattern: every match of
/// `from`, from the left and without overlap, is replaced by `to`. A result
/// longer than `isize::MAX` bytes would make the standard library panic;
/// nothing here rules that out.
#[verifier::external_body]
pub(crate) fn str_replace(s: &str, from: &str, to: &str) -> (r: String)
    requires
        from@.len() > 0,
    ensures
        r@ == replaced(s@, from@, to@),
{
    s.replace(from, to)
}

/// Taking one more character adds the bytes of that character, and a
/// prefix never encodes to more bytes than the whole.
pub proof fn lemma_encode_take_step(s: Seq<char>, k: int)
    requires
        0 <= k < s.len(),
    ensures
        utf8_of(s.take(k + 1)).len() == utf8_of(s.take(k)).len() + utf8_of(seq![s[k]]).len(),
        utf8_of(s.take(k + 1)).len() <= utf8_of(s).len(),
{
    assert(s.take(k + 1) =~= s.take(k) + seq![s[k]]);
    lemma_encode_concat(s.take(k), seq![s[k]]);
    lemma_encode_split(s, k + 1);
}

/// Splitting the characters at `k` splits the encoding.
pub proof fn lemma_encode_split(s: Seq<char>, k: int)
    requires
        0 <= k <= s.len(),
    ensures
        encode_utf8(s) == encode_utf8(s.take(k)) + encode_utf8(s.skip(k)),
        encode_utf8(s).skip(encode_utf8(s.take(k)).len() as int) == encode_utf8(s.skip(k)),
        encode_utf8(s).take(encode_utf8(s.take(k)).len() as int) == encode_utf8(s.take(k)),
{
    assert(s =~= s.take(k) + s.skip(k));
    lemma_encode_concat(s.take(k), s.skip(k));
    let a = encode_utf8(s.take(k));
    let b = encode_utf8(s.skip(k));
    assert((a + b).skip(a.len() as int) =~= b);
    assert((a + b).take(a.len() as int) =~= a);
}

/// The encoding of a prefix of the characters ends on a character boundary.
pub proof fn lemma_boundary_at_take(s: Seq<char>, k: int)
    requires
        0 <= k <= s.len(),
    ensures
        is_char_boundary(encode_utf8(s), encode_utf8(s.take(k)).len() as int),
    decreases k,
{
    vstd::utf8::encode_utf8_valid_utf8(s);
    if k == 0 {
        assert(s.take(0) =~= Seq::<char>::empty());
        assert(encode_utf8(s.take(0)) =~= Seq::<u8>::empty());
    } else {
        let t = s.drop_first();
        lemma_boundary_at_take(t, k - 1);
        vstd::utf8::encode_utf8_first_scalar(s);
        lemma_encode_one(s[0]);
        assert(s.take(k) =~= seq![s[0]] + t.take(k - 1));
        lemma_encode_concat(seq![s[0]], t.take(k - 1));
        let e = encode_utf8(s);
        assert(pop_first_scalar(e) =~= encode_utf8(t));
        vstd::utf8::encode_utf8_valid_utf8(t);
    }
}

/// The number of bytes in the UTF-8 encoding of `c`.
pub fn utf8_width(c: char) -> (n: usize)
    ensures
        n == encode_utf8(seq![c]).len(),
{
    proof {
        lemma_encode_one(c);
        vstd::utf8::char_is_scalar(c);
    }
    let v = c as u32;
    if v < 0x80 {
        1
    } else if v < 0x800 {
        2
    } else if v < 0x10000 {
        3
    } else {
        4
    }
}

/// Wraps `String::insert`: inserts `ch` at byte offset `idx`.
///
/// The standard library documents that the character is inserted at the given
/// byte position, and that the call panics when `idx` does not lie on a
/// character boundary; growing past `isize::MAX` bytes panics as well.
#[verifier::external_body]
pub(crate) fn string_insert(s: &mut String, idx: usize, ch: char)
    requires
        valid_utf8(utf8_of(old(s)@)),
        is_char_boundary(utf8_of(old(s)@), idx as int),
        utf8_of(old(s)@).len() + encode_utf8(seq![ch]).len() <= isize::MAX,
    ensures
        utf8_of(final(s)@) == utf8_of(old(s)@).take(idx as int) + encode_utf8(seq![ch])
            + utf8_of(old(s)@).skip(idx as int),
{
    s.insert(idx, ch)
}

/// Wraps `String::insert_str`: inserts the characters of `string` at byte
/// offset `idx`.
///
/// The standard library documents the same panics as for `String::insert`.
#[verifier::external_body]
pub(crate) fn string_insert_str(s: &mut String, idx: usize, string: &str)
    requires
        valid_utf8(utf8_of(old(s)@)),
        is_char_boundary(utf8_of(old(s)@), idx as int),
        utf8_of(old(s)@).len() + utf8_of(string@).len() <= isize::MAX,
    ensures
        utf8_of(final(s)@) == utf8_of(old(s)@).take(idx as int) + utf8_of(string@) + utf8_of(
            old(s)@,
        ).skip(idx as int),
{
    s.insert_str(idx, string)
}

/// Wraps `String::remove`: removes the character that starts at byte offset
/// `idx` and returns it.
///
/// The standard library documents a panic when `idx` is at or past the end, or
/// does not lie on a character boundary.
#[verifier::external_body]
pub(crate) fn string_remove(s: &mut String, idx: usize) -> (ch: char)
    requires
        valid_utf8(utf8_of(old(s)@)),
        idx < utf8_of(old(s)@).len(),
        is_char_boundary(utf8_of(old(s)@), idx as int),
    ensures
        idx + encode_utf8(seq![ch]).len() <= utf8_of(old(s)@).len(),
        utf8_of(old(s)@).subrange(idx as int, idx + encode_utf8(seq![ch]).len())
            == encode_utf8(seq![ch]),
        utf8_of(final(s)@) == utf8_of(old(s)@).take(idx as int) + utf8_of(old(s)@).skip(
            idx + encode_utf8(seq![ch]).len(),
        ),
{
    s.remove(idx)
}

/// Wraps `String::len`: the length of the string in bytes. A string's
/// buffer never holds more than `isize::MAX` bytes: the standard library
/// panics before allocating more.
#[verifier::external_body]
pub(crate) fn string_byte_len(s: &String) -> (n: usize)
    ensures
        n == utf8_of(s@).len(),
        n <= isize::MAX,
{
    s.len()
}

/// Wraps `String::push`: appends one character. Growing a string past
/// `isize::MAX` bytes panics.
#[verifier::external_body]
pub(crate) fn string_push(s: &mut String, ch: char)
    requires
        utf8_of(old(s)@).len() + encode_utf8(seq![ch]).len() <= isize::MAX,
    ensures
        final(s)@ == old(s)@.push(ch),
{
    s.push(ch)
}

/// Wraps `String::from_utf8`: the bytes as a string when they are valid UTF-8.
#[verifier::external_body]
pub(crate) fn string_from_utf8(bytes: Vec<u8>) -> (s: Option<String>)
    ensures
        s is Some <==> valid_utf8(bytes@),
        s matches Some(t) ==> utf8_of(t@) == bytes@,
{
    String::from_utf8(bytes).ok()
}

} // verus!
