//! Embedded tags: `<encoded>...</encoded>` fragments inside a document,
//! each holding a blob text that is replaced by its plaintext.
//!
//! A fragment opens with `<encoded>` and ends at the first `</encoded>`
//! behind it, provided that no line feed stands in between. Fragments are
//! taken from left to right and do not overlap.

use super::cipher::{decrypt_text, decrypted};
use super::outside::string_from_utf8_lossy;
use crate::utils::text::{append_bytes, lossy_text};
use vstd::prelude::*;
use vstd::utf8::{
    decode_utf8, decode_utf8_encode_utf8, encode_utf8, encode_utf8_valid_utf8,
    is_char_boundary_iff_not_is_continuation_byte, is_continuation_byte, valid_utf8,
    valid_utf8_concat, valid_utf8_split,
};

verus! {

/// Length of `<encoded>`.
pub const OPEN_LEN: usize = 9;

/// Length of `</encoded>`.
pub const CLOSE_LEN: usize = 10;

/// The line feed, which no fragment spans.
pub const LINE_FEED: u8 = 0x0a;

/// The ASCII bytes of `<encoded>`.
pub open spec fn open_tag() -> Seq<u8> {
    seq![0x3cu8, 0x65u8, 0x6eu8, 0x63u8, 0x6fu8, 0x64u8, 0x65u8, 0x64u8, 0x3eu8]
}

/// The ASCII bytes of `</encoded>`.
pub open spec fn close_tag() -> Seq<u8> {
    seq![0x3cu8, 0x2fu8, 0x65u8, 0x6eu8, 0x63u8, 0x6fu8, 0x64u8, 0x65u8, 0x64u8, 0x3eu8]
}

/// Whether `pattern` stands in `doc` at index `at`.
pub open spec fn occurs_at(doc: Seq<u8>, pattern: Seq<u8>, at: int) -> bool {
    &&& 0 <= at
    &&& at + pattern.len() <= doc.len()
    &&& doc.subrange(at, at + pattern.len()) == pattern
}

/// Whether the inner text that starts at `inner` ends at `end`: the closing
/// tag stands at `end`, and from `inner` up to `end` there is neither a line
/// feed nor an earlier closing tag.
pub open spec fn closes_at(doc: Seq<u8>, inner: int, end: int) -> bool {
    &&& inner <= end
    &&& occurs_at(doc, close_tag(), end)
    &&& forall|k: int| inner <= k < end ==> #[trigger] doc[k] != LINE_FEED
    &&& forall|k: int| inner <= k < end ==> !occurs_at(doc, close_tag(), k)
}

/// Whether a fragment opens at `start` and has its closing tag at `end`.
pub open spec fn is_fragment(doc: Seq<u8>, start: int, end: int) -> bool {
    occurs_at(doc, open_tag(), start) && closes_at(doc, start + 9, end)
}

/// Whether the fragment from `start` to `end` is the leftmost one that
/// opens at or behind `from`.
pub open spec fn is_first_fragment(doc: Seq<u8>, from: int, start: int, end: int) -> bool {
    &&& from <= start
    &&& is_fragment(doc, start, end)
    &&& forall|s: int, e: int| from <= s < start ==> !is_fragment(doc, s, e)
}

/// Whether no fragment opens at or behind `from`.
pub open spec fn no_fragment_from(doc: Seq<u8>, from: int) -> bool {
    forall|s: int, e: int| from <= s ==> !is_fragment(doc, s, e)
}

/// The leftmost fragment that opens at or behind `from`, as the indices of
/// its opening and its closing tag.
pub open spec fn first_fragment(doc: Seq<u8>, from: int) -> Option<(int, int)> {
    if exists|s: int, e: int| is_first_fragment(doc, from, s, e) {
        Some(choose|s: int, e: int| is_first_fragment(doc, from, s, e))
    } else {
        None
    }
}

/// What stands in place of a fragment with the given inner text: its
/// plaintext, decoded as UTF-8 with replacement, or nothing where it does
/// not decrypt.
pub open spec fn fragment_text(inner: Seq<u8>, passphrase: Seq<u8>) -> Seq<u8> {
    match decrypted(inner, passphrase) {
        Ok(plain) => encode_utf8(lossy_text(plain)),
        Err(_) => Seq::<u8>::empty(),
    }
}

/// The document from index `from` on, with every fragment replaced.
pub open spec fn spliced(doc: Seq<u8>, passphrase: Seq<u8>, from: int) -> Seq<u8>
    decreases doc.len() - from,
    via spliced_terminates
{
    match first_fragment(doc, from) {
        None => doc.subrange(from, doc.len() as int),
        Some((start, end)) => doc.subrange(from, start) + fragment_text(
            doc.subrange(start + 9, end),
            passphrase,
        ) + spliced(doc, passphrase, end + 10),
    }
}

#[via_fn]
proof fn spliced_terminates(doc: Seq<u8>, passphrase: Seq<u8>, from: int) {
    if let Some((start, end)) = first_fragment(doc, from) {
        assert(is_first_fragment(doc, from, start, end));
    }
}

/// A fragment has one end only.
pub proof fn lemma_end_unique(doc: Seq<u8>, inner: int, end_a: int, end_b: int)
    requires
        closes_at(doc, inner, end_a),
        closes_at(doc, inner, end_b),
    ensures
        end_a == end_b,
{
}

/// The leftmost fragment is the one that `first_fragment` names.
pub proof fn lemma_first_fragment_is(doc: Seq<u8>, from: int, start: int, end: int)
    requires
        is_first_fragment(doc, from, start, end),
    ensures
        first_fragment(doc, from) == Some((start, end)),
{
    let (s, e) = choose|s: int, e: int| is_first_fragment(doc, from, s, e);
    assert(is_first_fragment(doc, from, s, e));
    if s < start {
        assert(!is_fragment(doc, s, e));
    }
    if start < s {
        assert(!is_fragment(doc, start, end));
    }
    lemma_end_unique(doc, start + 9, end, e);
}

/// Where no fragment opens, `first_fragment` names none.
pub proof fn lemma_first_fragment_none(doc: Seq<u8>, from: int)
    requires
        no_fragment_from(doc, from),
    ensures
        first_fragment(doc, from) is None,
{
    if exists|s: int, e: int| is_first_fragment(doc, from, s, e) {
        let (s, e) = choose|s: int, e: int| is_first_fragment(doc, from, s, e);
        assert(is_fragment(doc, s, e));
    }
}

/// What follows an ASCII byte in valid UTF-8 is valid UTF-8.
proof fn lemma_valid_after_ascii(bytes: Seq<u8>)
    requires
        valid_utf8(bytes),
        bytes.len() > 0,
        bytes[0] < 0x80,
    ensures
        valid_utf8(bytes.subrange(1, bytes.len() as int)),
{
    assert(vstd::utf8::pop_first_scalar(bytes) == bytes.subrange(1, bytes.len() as int));
}

/// The tail of valid UTF-8 from an ASCII byte on is valid UTF-8, and so is
/// the part before it.
proof fn lemma_valid_split_at_ascii(bytes: Seq<u8>, at: int)
    requires
        valid_utf8(bytes),
        0 <= at < bytes.len(),
        bytes[at] < 0x80,
    ensures
        valid_utf8(bytes.subrange(0, at)),
        valid_utf8(bytes.subrange(at, bytes.len() as int)),
{
    assert(!is_continuation_byte(bytes[at])) by {
        let b = bytes[at];
        assert(b < 0x80u8 ==> !(0x80u8 <= b <= 0xbfu8));
    }
    is_char_boundary_iff_not_is_continuation_byte(bytes, at);
    valid_utf8_split(bytes, at);
}

/// Splicing a document that is valid UTF-8 from `from` on gives valid UTF-8.
pub proof fn lemma_spliced_valid(doc: Seq<u8>, passphrase: Seq<u8>, from: int)
    requires
        0 <= from <= doc.len(),
        valid_utf8(doc.subrange(from, doc.len() as int)),
    ensures
        valid_utf8(spliced(doc, passphrase, from)),
    decreases doc.len() - from,
{
    let len = doc.len() as int;
    match first_fragment(doc, from) {
        None => {},
        Some((start, end)) => {
            assert(is_first_fragment(doc, from, start, end));
            let tail = doc.subrange(from, len);
            assert(doc.subrange(start, start + 9) == open_tag());
            assert(doc[start] == doc.subrange(start, start + 9)[0]);
            assert(tail[start - from] == doc[start]);
            lemma_valid_split_at_ascii(tail, start - from);
            assert(tail.subrange(0, start - from) == doc.subrange(from, start));
            let opened = doc.subrange(start, len);
            assert(tail.subrange(start - from, tail.len() as int) == opened);
            assert(doc.subrange(end, end + 10) == close_tag());
            assert(doc[end + 9] == doc.subrange(end, end + 10)[9]);
            assert(opened[end + 9 - start] == doc[end + 9]);
            lemma_valid_split_at_ascii(opened, end + 9 - start);
            let closing = doc.subrange(end + 9, len);
            assert(opened.subrange(end + 9 - start, opened.len() as int) == closing);
            lemma_valid_after_ascii(closing);
            assert(closing.subrange(1, closing.len() as int) == doc.subrange(end + 10, len));
            lemma_spliced_valid(doc, passphrase, end + 10);
            let text = fragment_text(doc.subrange(start + 9, end), passphrase);
            assert(valid_utf8(text)) by {
                match decrypted(doc.subrange(start + 9, end), passphrase) {
                    Ok(plain) => {
                        encode_utf8_valid_utf8(lossy_text(plain));
                    },
                    Err(_) => {},
                }
            }
            valid_utf8_concat(doc.subrange(from, start), text);
            valid_utf8_concat(
                doc.subrange(from, start) + text,
                spliced(doc, passphrase, end + 10),
            );
        },
    }
}

/// `<encoded>` as an array.
fn open_bytes() -> (tag: [u8; 9])
    ensures
        tag@ == open_tag(),
{
    let tag: [u8; 9] = [0x3cu8, 0x65u8, 0x6eu8, 0x63u8, 0x6fu8, 0x64u8, 0x65u8, 0x64u8, 0x3eu8];
    assert(tag@ == open_tag());
    tag
}

/// `</encoded>` as an array.
fn close_bytes() -> (tag: [u8; 10])
    ensures
        tag@ == close_tag(),
{
    let tag: [u8; 10] = [
        0x3cu8,
        0x2fu8,
        0x65u8,
        0x6eu8,
        0x63u8,
        0x6fu8,
        0x64u8,
        0x65u8,
        0x64u8,
        0x3eu8,
    ];
    assert(tag@ == close_tag());
    tag
}

/// Whether `pattern` stands in `doc` at `at`.
fn matches_at(doc: &[u8], at: usize, pattern: &[u8]) -> (found: bool)
    ensures
        found == occurs_at(doc@, pattern@, at as int),
{
    if pattern.len() > doc.len() || at > doc.len() - pattern.len() {
        return false;
    }
    let mut i: usize = 0;
    while i < pattern.len()
        invariant
            i <= pattern.len(),
            at + pattern.len() <= doc.len(),
            forall|j: int| 0 <= j < i ==> doc@[at + j] == pattern@[j],
        decreases pattern.len() - i,
    {
        if doc[at + i] != pattern[i] {
            assert(doc@.subrange(at as int, at + pattern@.len())[i as int] != pattern@[i as int]);
            return false;
        }
        i += 1;
    }
    assert(doc@.subrange(at as int, at + pattern@.len()) == pattern@);
    true
}

/// Where the scan of an inner text stopped without finding its end: at a
/// line feed or at the end of the document, with neither a line feed nor a
/// closing tag before it.
pub open spec fn stops_at(doc: Seq<u8>, inner: int, stop: int) -> bool {
    &&& inner <= stop <= doc.len()
    &&& stop < doc.len() ==> doc[stop] == LINE_FEED
    &&& forall|k: int| inner <= k < stop ==> #[trigger] doc[k] != LINE_FEED
    &&& forall|k: int| inner <= k < stop ==> !occurs_at(doc, close_tag(), k)
}

/// Where the scan from `inner` stopped at `stop`, no fragment opens from
/// nine bytes before `inner` up to `stop`: an inner text that starts in
/// between would hold the line feed at `stop` or run out of the document,
/// and so would an opening tag that reaches over `stop`.
proof fn lemma_no_fragment_up_to_stop(doc: Seq<u8>, inner: int, stop: int)
    requires
        9 <= inner,
        stops_at(doc, inner, stop),
    ensures
        forall|s: int, e: int| inner - 9 <= s <= stop ==> !is_fragment(doc, s, e),
{
    assert forall|s: int, e: int| inner - 9 <= s <= stop implies !is_fragment(doc, s, e) by {
        if is_fragment(doc, s, e) {
            if s + 9 <= stop {
                if e < stop {
                    assert(!occurs_at(doc, close_tag(), e));
                } else if stop < doc.len() {
                    if e == stop {
                        assert(doc[stop] == doc.subrange(e, e + 10)[0]);
                    } else {
                        assert(doc[stop] != LINE_FEED);
                    }
                }
            } else {
                if stop < doc.len() {
                    assert(doc[stop] == doc.subrange(s, s + 9)[stop - s]);
                }
            }
        }
    }
}

/// Scans the inner text that starts at `inner` for its end: `Ok` with the
/// index of the closing tag, or `Err` with the index at which the scan
/// stopped.
fn scan_inner(doc: &[u8], inner: usize) -> (found: Result<usize, usize>)
    requires
        inner <= doc.len(),
    ensures
        match found {
            Ok(end) => closes_at(doc@, inner as int, end as int),
            Err(stop) => stops_at(doc@, inner as int, stop as int),
        },
{
    let close = close_bytes();
    let mut k: usize = inner;
    while k < doc.len()
        invariant
            inner <= k <= doc.len(),
            close@ == close_tag(),
            forall|j: int| inner <= j < k ==> #[trigger] doc@[j] != LINE_FEED,
            forall|j: int| inner <= j < k ==> !occurs_at(doc@, close_tag(), j),
        decreases doc.len() - k,
    {
        if matches_at(doc, k, close.as_slice()) {
            return Ok(k);
        }
        if doc[k] == LINE_FEED {
            return Err(k);
        }
        k += 1;
    }
    Err(k)
}

/// Finds the leftmost fragment that opens at or behind `from`. Every byte
/// is looked at a bounded number of times: where an inner text has no end,
/// the search goes on behind the place where its scan stopped.
pub fn find_fragment(doc: &[u8], from: usize) -> (found: Option<(usize, usize)>)
    requires
        from <= doc.len(),
    ensures
        match found {
            Some((start, end)) => is_first_fragment(
                doc@,
                from as int,
                start as int,
                end as int,
            ),
            None => no_fragment_from(doc@, from as int),
        },
{
    let open = open_bytes();
    let mut start: usize = from;
    while start < doc.len()
        invariant
            from <= start <= doc.len(),
            open@ == open_tag(),
            forall|s: int, e: int| from <= s < start ==> !is_fragment(doc@, s, e),
        decreases doc.len() - start,
    {
        if matches_at(doc, start, open.as_slice()) {
            match scan_inner(doc, start + OPEN_LEN) {
                Ok(end) => {
                    return Some((start, end));
                },
                Err(stop) => {
                    proof {
                        lemma_no_fragment_up_to_stop(doc@, start + 9, stop as int);
                    }
                    start = if stop < doc.len() {
                        stop + 1
                    } else {
                        stop
                    };
                },
            }
        } else {
            start += 1;
        }
    }
    None
}

/// What stands in place of a fragment with the given inner text.
fn replacement(inner: &[u8], passphrase: &[u8]) -> (text: Vec<u8>)
    ensures
        text@ == fragment_text(inner@, passphrase@),
{
    match decrypt_text(inner, passphrase) {
        Ok(plain) => {
            let text = string_from_utf8_lossy(plain.as_slice());
            let mut bytes: Vec<u8> = Vec::new();
            append_bytes(&mut bytes, text.as_str().as_bytes());
            bytes
        },
        Err(_) => Vec::new(),
    }
}

/// Replaces every fragment of `html` by the plaintext of its inner text
/// under `passphrase`, or by nothing where the inner text does not decrypt.
/// Everything outside the fragments is kept byte for byte.
pub fn decode_document(html: &[u8], passphrase: &[u8]) -> (out: Vec<u8>)
    ensures
        out@ == spliced(html@, passphrase@, 0),
{
    let mut out: Vec<u8> = Vec::new();
    let mut from: usize = 0;
    loop
        invariant
            from <= html.len(),
            out@ + spliced(html@, passphrase@, from as int) == spliced(html@, passphrase@, 0),
        decreases html.len() - from,
    {
        match find_fragment(html, from) {
            None => {
                proof {
                    lemma_first_fragment_none(html@, from as int);
                }
                append_bytes(&mut out, &html[from..html.len()]);
                return out;
            },
            Some((start, end)) => {
                proof {
                    lemma_first_fragment_is(html@, from as int, start as int, end as int);
                }
                let ghost before = out@;
                let ghost rest = spliced(html@, passphrase@, end + 10);
                append_bytes(&mut out, &html[from..start]);
                let text = replacement(&html[start + OPEN_LEN..end], passphrase);
                append_bytes(&mut out, text.as_slice());
                assert(out@ + rest == before + (html@.subrange(from as int, start as int) + text@
                    + rest));
                from = end + CLOSE_LEN;
            },
        }
    }
}

/// Replaces every `<encoded>...</encoded>` fragment of `html_string` by the
/// plaintext of its inner text under `key` as passphrase, or by nothing
/// where the inner text does not decrypt. All other text is kept.
pub fn decrypt_lanis_encoded_tags(html_string: &str, key: &String) -> (text: String)
    ensures
        encode_utf8(text@) == spliced(encode_utf8(html_string@), encode_utf8(key@), 0),
        text@ == decode_utf8(spliced(encode_utf8(html_string@), encode_utf8(key@), 0)),
{
    let html = html_string.as_bytes();
    let bytes = decode_document(html, key.as_str().as_bytes());
    proof {
        encode_utf8_valid_utf8(html_string@);
        assert(html@.subrange(0, html@.len() as int) == html@);
        lemma_spliced_valid(html@, encode_utf8(key@), 0);
        decode_utf8_encode_utf8(bytes@);
    }
    string_from_utf8_lossy(bytes.as_slice())
}

} // verus!
