//! Cleaning of raw payment message payloads before they are read as JSON.
//!
//! Payloads arrive as bytes. They are decoded as UTF-8, with every invalid
//! sequence replaced by U+FFFD, and then stripped of the unusual spaces that
//! some clients put into their JSON: no-break space (U+00A0), narrow no-break
//! space (U+202F) and thin space (U+2009) become plain spaces, and zero-width
//! spaces (U+200B) are dropped.

use vstd::prelude::*;
use vstd::utf8::{decode_utf8, encode_utf8, valid_utf8};

verus! {

broadcast use vstd::string::group_string_axioms;

/// What `String::from_utf8_lossy` makes of a byte sequence.
pub uninterp spec fn utf8_lossy(bytes: Seq<u8>) -> Seq<char>;

/// Every byte below 0x80.
pub open spec fn is_ascii_bytes(bytes: Seq<u8>) -> bool {
    forall|i: int| 0 <= i < bytes.len() ==> #[trigger] bytes[i] < 0x80
}

/// The characters that ASCII bytes stand for.
pub open spec fn ascii_chars(bytes: Seq<u8>) -> Seq<char> {
    bytes.map_values(|b: u8| b as char)
}

/// Decodes bytes as UTF-8 through `String::from_utf8_lossy`: the result is
/// the decoded text, with each invalid sequence replaced by U+FFFD. Only
/// valid UTF-8 is spelled out here: it decodes to the characters it encodes.
/// What invalid sequences become is left to the name `utf8_lossy`.
#[verifier::external_body]
fn decode_utf8_lossy(bytes: &[u8]) -> (text: String)
    ensures
        text@ == utf8_lossy(bytes@),
        valid_utf8(bytes@) ==> text@ == decode_utf8(bytes@),
{
    String::from_utf8_lossy(bytes).into_owned()
}

/// Appends one character through `String::push`.
#[verifier::external_body]
fn push_char(text: &mut String, c: char)
    ensures
        final(text)@ == old(text)@.push(c),
{
    text.push(c)
}

/// Whether `c` is one of the spaces that cleaning turns into a plain space.
pub open spec fn is_odd_space(c: char) -> bool {
    c == '\u{00A0}' || c == '\u{202F}' || c == '\u{2009}'
}

/// What cleaning makes of one character.
pub open spec fn scrub_char(c: char) -> Seq<char> {
    if is_odd_space(c) {
        seq![' ']
    } else if c == '\u{200B}' {
        Seq::empty()
    } else {
        seq![c]
    }
}

/// Cleaning, character by character.
pub open spec fn scrub(s: Seq<char>) -> Seq<char>
    decreases s.len(),
{
    if s.len() == 0 {
        Seq::empty()
    } else {
        scrub(s.drop_last()) + scrub_char(s.last())
    }
}

/// Every occurrence of `from` in `s` replaced by `to`.
pub open spec fn replace_char(s: Seq<char>, from: char, to: Seq<char>) -> Seq<char>
    decreases s.len(),
{
    if s.len() == 0 {
        Seq::empty()
    } else {
        replace_char(s.drop_last(), from, to) + if s.last() == from {
            to
        } else {
            seq![s.last()]
        }
    }
}

/// Whether none of the characters that cleaning rewrites occurs in `s`.
pub open spec fn is_clean(s: Seq<char>) -> bool {
    forall|i: int| 0 <= i < s.len() ==> !is_odd_space(#[trigger] s[i]) && s[i] != '\u{200B}'
}

/// Cleans decoded text.
pub fn scrub_text(text: &str) -> (out: String)
    ensures
        out@ == scrub(text@),
{
    let mut out = String::new();
    for c in it: text.chars()
        invariant
            it.seq() == text@,
            out@ == scrub(text@.take(it.index() as int)),
    {
        let ghost k: int = it.index() as int;
        assert(c == text@[k]);
        assert(text@.take(k + 1).drop_last() =~= text@.take(k));
        if c == '\u{00A0}' || c == '\u{202F}' || c == '\u{2009}' {
            push_char(&mut out, ' ');
        } else if c != '\u{200B}' {
            push_char(&mut out, c);
        }
        assert(out@ =~= scrub(text@.take(k)) + scrub_char(c));
    }
    assert(text@.take(text@.len() as int) =~= text@);
    out
}

/// Decodes a raw payload and cleans it, ready to be read as JSON.
pub fn clean_payload(payload: &[u8]) -> (text: String)
    ensures
        text@ == scrub(utf8_lossy(payload@)),
        valid_utf8(payload@) ==> text@ == scrub(decode_utf8(payload@)),
        is_ascii_bytes(payload@) ==> text@ == ascii_chars(payload@),
{
    let decoded = decode_utf8_lossy(payload);
    let text = scrub_text(decoded.as_str());
    proof {
        if is_ascii_bytes(payload@) {
            lemma_ascii_decodes_to_itself(payload@);
            assert(is_clean(ascii_chars(payload@)));
            lemma_scrub_clean(ascii_chars(payload@));
        }
    }
    text
}

/// ASCII bytes are valid UTF-8 and decode to the characters with those codes.
pub proof fn lemma_ascii_decodes_to_itself(bytes: Seq<u8>)
    requires
        is_ascii_bytes(bytes),
    ensures
        valid_utf8(bytes),
        decode_utf8(bytes) == ascii_chars(bytes),
    decreases bytes.len(),
{
    if bytes.len() > 0 {
        let rest = bytes.drop_first();
        assert(vstd::utf8::pop_first_scalar(bytes) =~= rest);
        assert(is_ascii_bytes(rest));
        lemma_ascii_decodes_to_itself(rest);
        let b = bytes[0];
        assert(b < 0x80 ==> b & 0x7f == b) by (bit_vector);
        assert(vstd::utf8::decode_first_scalar(bytes) == b as u32);
        assert(decode_utf8(bytes) =~= ascii_chars(bytes));
    }
}

/// Cleaning a payload that is the UTF-8 encoding of some text cleans that
/// text: a no-break space arrives as a space, a zero-width space not at all,
/// and text without such characters arrives exactly as it was sent.
pub proof fn lemma_encoded_text_cleans_to_scrubbed_text(text: Seq<char>)
    ensures
        valid_utf8(encode_utf8(text)),
        scrub(decode_utf8(encode_utf8(text))) == scrub(text),
        is_clean(text) ==> scrub(decode_utf8(encode_utf8(text))) == text,
{
    vstd::utf8::encode_utf8_valid_utf8(text);
    vstd::utf8::encode_utf8_decode_utf8(text);
    if is_clean(text) {
        lemma_scrub_clean(text);
    }
}

/// Cleaning leaves text that holds none of the rewritten characters as it is.
pub proof fn lemma_scrub_clean(s: Seq<char>)
    requires
        is_clean(s),
    ensures
        scrub(s) == s,
    decreases s.len(),
{
    if s.len() > 0 {
        assert(is_clean(s.drop_last()));
        lemma_scrub_clean(s.drop_last());
        assert(!is_odd_space(s[s.len() - 1]) && s[s.len() - 1] != '\u{200B}');
        assert(scrub(s) =~= s.drop_last().push(s.last()));
        assert(s.drop_last().push(s.last()) =~= s);
    }
}

/// Cleaned text holds none of the characters that cleaning rewrites.
pub proof fn lemma_scrub_is_clean(s: Seq<char>)
    ensures
        is_clean(scrub(s)),
    decreases s.len(),
{
    if s.len() > 0 {
        lemma_scrub_is_clean(s.drop_last());
        let p = scrub(s.drop_last());
        let q = scrub_char(s.last());
        assert(is_clean(q));
        assert forall|i: int| 0 <= i < (p + q).len() implies !is_odd_space(#[trigger] (p + q)[i])
            && (p + q)[i] != '\u{200B}' by {
            if i < p.len() {
                assert((p + q)[i] == p[i]);
            } else {
                assert((p + q)[i] == q[i - p.len()]);
            }
        }
    }
}

/// Cleaning twice is cleaning once.
pub proof fn lemma_scrub_idempotent(s: Seq<char>)
    ensures
        scrub(scrub(s)) == scrub(s),
{
    lemma_scrub_is_clean(s);
    lemma_scrub_clean(scrub(s));
}

/// Cleaning is the four replacements applied one after another: no-break
/// space, narrow no-break space and thin space by a space, then zero-width
/// space by nothing.
pub proof fn lemma_scrub_is_four_replacements(s: Seq<char>)
    ensures
        scrub(s) == replace_char(
            replace_char(
                replace_char(replace_char(s, '\u{00A0}', seq![' ']), '\u{202F}', seq![' ']),
                '\u{2009}',
                seq![' '],
            ),
            '\u{200B}',
            Seq::empty(),
        ),
    decreases s.len(),
{
    if s.len() > 0 {
        lemma_scrub_is_four_replacements(s.drop_last());
        let c = s.last();
        let r1 = replace_char(s, '\u{00A0}', seq![' ']);
        let p1 = replace_char(s.drop_last(), '\u{00A0}', seq![' ']);
        let t1: Seq<char> = if c == '\u{00A0}' { seq![' '] } else { seq![c] };
        assert(r1 == p1 + t1);
        lemma_replace_append(p1, t1, '\u{202F}', seq![' ']);
        let p2 = replace_char(p1, '\u{202F}', seq![' ']);
        let t2 = replace_char(t1, '\u{202F}', seq![' ']);
        lemma_replace_append(p2, t2, '\u{2009}', seq![' ']);
        let p3 = replace_char(p2, '\u{2009}', seq![' ']);
        let t3 = replace_char(t2, '\u{2009}', seq![' ']);
        lemma_replace_append(p3, t3, '\u{200B}', Seq::empty());
        let t4 = replace_char(t3, '\u{200B}', Seq::empty());
        lemma_replace_single(t1, '\u{202F}', seq![' ']);
        lemma_replace_single(t2, '\u{2009}', seq![' ']);
        lemma_replace_single(t3, '\u{200B}', Seq::empty());
        assert(t4 =~= scrub_char(c));
    }
}

proof fn lemma_replace_single(t: Seq<char>, from: char, to: Seq<char>)
    requires
        t.len() == 1,
    ensures
        replace_char(t, from, to) == if t[0] == from {
            to
        } else {
            t
        },
{
    assert(t.drop_last() =~= Seq::<char>::empty());
    assert(replace_char(t.drop_last(), from, to) =~= Seq::<char>::empty());
    assert(seq![t.last()] =~= t);
    assert(replace_char(t, from, to) =~= if t[0] == from {
        to
    } else {
        t
    });
}

proof fn lemma_replace_append(a: Seq<char>, b: Seq<char>, from: char, to: Seq<char>)
    ensures
        replace_char(a + b, from, to) == replace_char(a, from, to) + replace_char(b, from, to),
    decreases b.len(),
{
    if b.len() == 0 {
        assert(a + b =~= a);
        assert(replace_char(a, from, to) + replace_char(b, from, to) =~= replace_char(a, from, to));
    } else {
        assert((a + b).drop_last() =~= a + b.drop_last());
        assert((a + b).last() == b.last());
        lemma_replace_append(a, b.drop_last(), from, to);
        assert(replace_char(a + b, from, to) =~= replace_char(a, from, to) + replace_char(b, from, to));
    }
}

} // verus!
