//! What decoding makes of a document, stated twice: for any document and
//! the list of its fragments, and for a document that is put together from
//! texts and fragments.
//!
//! Such a document is a text followed by any number of parts, each a
//! fragment and the text behind it. Where no text holds an opening tag and
//! no inner text holds a line feed or a closing tag, decoding finds exactly
//! these fragments.

use super::cipher::{decrypted, CryptorError};
use super::tags::{
    close_tag, closes_at, first_fragment, fragment_text, is_first_fragment, is_fragment,
    lemma_first_fragment_is, lemma_first_fragment_none, no_fragment_from, occurs_at, open_tag,
    spliced, LINE_FEED,
};
use vstd::prelude::*;
use vstd::utf8::{decode_utf8_encode_utf8, valid_utf8};

verus! {

/// Whether `fragments` are the fragments of the document from `from` on:
/// each is the leftmost one behind the closing tag of the one before, and
/// none opens behind the last.
pub open spec fn fragments_from(doc: Seq<u8>, from: int, fragments: Seq<(int, int)>) -> bool
    decreases fragments.len(),
{
    if fragments.len() == 0 {
        no_fragment_from(doc, from)
    } else {
        &&& is_first_fragment(doc, from, fragments[0].0, fragments[0].1)
        &&& fragments_from(doc, fragments[0].1 + 10, fragments.drop_first())
    }
}

/// The document from `from` on, with the `i`-th fragment, tags included,
/// replaced by `plains[i]` and everything else kept.
pub open spec fn replaced(
    doc: Seq<u8>,
    from: int,
    fragments: Seq<(int, int)>,
    plains: Seq<Seq<u8>>,
) -> Seq<u8>
    decreases fragments.len(),
{
    if fragments.len() == 0 || plains.len() == 0 {
        doc.subrange(from, doc.len() as int)
    } else {
        doc.subrange(from, fragments[0].0) + plains[0] + replaced(
            doc,
            fragments[0].1 + 10,
            fragments.drop_first(),
            plains.drop_first(),
        )
    }
}

/// Decoding keeps the text and puts the plaintexts in place, whatever the
/// document: where its fragments decrypt to `plains`, each of them valid
/// UTF-8, the decoded document is the document itself with every fragment,
/// tags included, replaced by its plaintext, in the same order, and all
/// other bytes unchanged.
pub proof fn lemma_fragments_replaced(
    doc: Seq<u8>,
    passphrase: Seq<u8>,
    from: int,
    fragments: Seq<(int, int)>,
    plains: Seq<Seq<u8>>,
)
    requires
        fragments_from(doc, from, fragments),
        plains.len() == fragments.len(),
        forall|i: int|
            0 <= i < fragments.len() ==> valid_utf8(#[trigger] plains[i]) && decrypted(
                doc.subrange(fragments[i].0 + 9, fragments[i].1),
                passphrase,
            ) == Ok::<Seq<u8>, CryptorError>(plains[i]),
    ensures
        spliced(doc, passphrase, from) == replaced(doc, from, fragments, plains),
    decreases fragments.len(),
{
    if fragments.len() == 0 {
        lemma_first_fragment_none(doc, from);
    } else {
        let (start, end) = fragments[0];
        lemma_first_fragment_is(doc, from, start, end);
        let rest = fragments.drop_first();
        let rest_plains = plains.drop_first();
        assert forall|i: int| 0 <= i < rest.len() implies valid_utf8(#[trigger] rest_plains[i])
            && decrypted(doc.subrange(rest[i].0 + 9, rest[i].1), passphrase) == Ok::<
            Seq<u8>,
            CryptorError,
        >(rest_plains[i]) by {
            assert(rest_plains[i] == plains[i + 1]);
            assert(rest[i] == fragments[i + 1]);
        }
        lemma_fragments_replaced(doc, passphrase, end + 10, rest, rest_plains);
        assert(valid_utf8(plains[0]));
        decode_utf8_encode_utf8(plains[0]);
        assert(fragment_text(doc.subrange(start + 9, end), passphrase) == plains[0]);
    }
}

/// A fragment and the text behind it.
pub struct Part {
    /// The inner text of the fragment
    pub inner: Seq<u8>,
    /// The text from the fragment's closing tag to the next fragment
    pub text: Seq<u8>,
}

/// Whether `pattern` stands nowhere in `text`.
pub open spec fn free_of(text: Seq<u8>, pattern: Seq<u8>) -> bool {
    forall|k: int| !occurs_at(text, pattern, k)
}

/// Whether `inner` can stand between the tags of a fragment: it holds
/// neither a line feed nor a closing tag.
pub open spec fn is_inner(inner: Seq<u8>) -> bool {
    &&& forall|k: int| 0 <= k < inner.len() ==> #[trigger] inner[k] != LINE_FEED
    &&& free_of(inner, close_tag())
}

/// A fragment: the inner text between the tags.
pub open spec fn tagged(inner: Seq<u8>) -> Seq<u8> {
    open_tag() + inner + close_tag()
}

/// The document that starts with `head` and goes on with `parts`.
pub open spec fn document(head: Seq<u8>, parts: Seq<Part>) -> Seq<u8>
    decreases parts.len(),
{
    if parts.len() == 0 {
        head
    } else {
        head + tagged(parts[0].inner) + document(parts[0].text, parts.drop_first())
    }
}

/// The document with the `i`-th fragment replaced by `plains[i]`.
pub open spec fn plain_document(head: Seq<u8>, parts: Seq<Part>, plains: Seq<Seq<u8>>) -> Seq<u8>
    decreases parts.len(),
{
    if parts.len() == 0 || plains.len() == 0 {
        head
    } else {
        head + plains[0] + plain_document(parts[0].text, parts.drop_first(), plains.drop_first())
    }
}

/// A pattern stands in the tail of a document where it stands in the
/// document, moved by the length of what comes before.
proof fn lemma_occurs_shift(before: Seq<u8>, rest: Seq<u8>, pattern: Seq<u8>, at: int)
    requires
        0 <= at,
    ensures
        occurs_at(before + rest, pattern, before.len() + at) <==> occurs_at(rest, pattern, at),
{
    let doc = before + rest;
    let n = before.len() as int;
    if at + pattern.len() <= rest.len() {
        assert(doc.subrange(n + at, n + at + pattern.len()) == rest.subrange(
            at,
            at + pattern.len(),
        ));
    }
}

/// An inner text ends in the tail of a document where it ends in the
/// document.
proof fn lemma_closes_shift(before: Seq<u8>, rest: Seq<u8>, inner: int, end: int)
    requires
        0 <= inner,
    ensures
        closes_at(before + rest, before.len() + inner, before.len() + end) <==> closes_at(
            rest,
            inner,
            end,
        ),
{
    let doc = before + rest;
    let n = before.len() as int;
    if inner <= end {
        lemma_occurs_shift(before, rest, close_tag(), end);
        if closes_at(doc, n + inner, n + end) {
            assert forall|k: int| inner <= k < end implies #[trigger] rest[k] != LINE_FEED by {
                assert(doc[n + k] != LINE_FEED);
            }
            assert forall|k: int| inner <= k < end implies !occurs_at(rest, close_tag(), k) by {
                lemma_occurs_shift(before, rest, close_tag(), k);
                assert(!occurs_at(doc, close_tag(), n + k));
            }
        }
        if closes_at(rest, inner, end) {
            assert forall|k: int| n + inner <= k < n + end implies #[trigger] doc[k]
                != LINE_FEED by {
                assert(rest[k - n] != LINE_FEED);
            }
            assert forall|k: int| n + inner <= k < n + end implies !occurs_at(
                doc,
                close_tag(),
                k,
            ) by {
                lemma_occurs_shift(before, rest, close_tag(), k - n);
                assert(!occurs_at(rest, close_tag(), k - n));
            }
        }
    }
}

/// A fragment of the tail of a document is a fragment of the document, and
/// the other way round.
proof fn lemma_fragment_shift(before: Seq<u8>, rest: Seq<u8>, start: int, end: int)
    requires
        0 <= start,
    ensures
        is_fragment(before + rest, before.len() + start, before.len() + end) <==> is_fragment(
            rest,
            start,
            end,
        ),
{
    lemma_occurs_shift(before, rest, open_tag(), start);
    lemma_closes_shift(before, rest, start + 9, end);
}

/// Where a fragment opens at or behind `from`, there is a leftmost one.
proof fn lemma_leftmost_exists(doc: Seq<u8>, from: int, start: int, end: int)
    requires
        from <= start,
        is_fragment(doc, start, end),
    ensures
        exists|s: int, e: int| is_first_fragment(doc, from, s, e),
    decreases start - from,
{
    if forall|s: int, e: int| from <= s < start ==> !is_fragment(doc, s, e) {
        assert(is_first_fragment(doc, from, start, end));
    } else {
        let (s, e) = choose|s: int, e: int| from <= s < start && is_fragment(doc, s, e);
        lemma_leftmost_exists(doc, from, s, e);
    }
}

/// The tail of a document is decoded as it would be alone.
proof fn lemma_spliced_shift(before: Seq<u8>, rest: Seq<u8>, passphrase: Seq<u8>, from: int)
    requires
        0 <= from <= rest.len(),
    ensures
        spliced(before + rest, passphrase, before.len() + from) == spliced(rest, passphrase, from),
    decreases rest.len() - from,
{
    let doc = before + rest;
    let n = before.len() as int;
    match first_fragment(rest, from) {
        Some((start, end)) => {
            assert(is_first_fragment(rest, from, start, end));
            lemma_fragment_shift(before, rest, start, end);
            assert forall|s: int, e: int| n + from <= s < n + start implies !is_fragment(
                doc,
                s,
                e,
            ) by {
                lemma_fragment_shift(before, rest, s - n, e - n);
                assert(!is_fragment(rest, s - n, e - n));
            }
            assert(is_first_fragment(doc, n + from, n + start, n + end));
            lemma_first_fragment_is(doc, n + from, n + start, n + end);
            assert(doc.subrange(n + from, n + start) == rest.subrange(from, start));
            assert(doc.subrange(n + start + 9, n + end) == rest.subrange(start + 9, end));
            lemma_spliced_shift(before, rest, passphrase, end + 10);
        },
        None => {
            assert forall|s: int, e: int| n + from <= s implies !is_fragment(doc, s, e) by {
                lemma_fragment_shift(before, rest, s - n, e - n);
                if is_fragment(rest, s - n, e - n) {
                    lemma_leftmost_exists(rest, from, s - n, e - n);
                }
            }
            lemma_first_fragment_none(doc, n + from);
            assert(doc.subrange(n + from, doc.len() as int) == rest.subrange(
                from,
                rest.len() as int,
            ));
        },
    }
}

/// A text without opening tag has no fragment.
proof fn lemma_text_has_no_fragment(text: Seq<u8>)
    requires
        free_of(text, open_tag()),
    ensures
        no_fragment_from(text, 0),
{
    assert forall|s: int, e: int| 0 <= s implies !is_fragment(text, s, e) by {
        assert(!occurs_at(text, open_tag(), s));
    }
}

/// Both tags begin with `<` and hold no other `<`.
proof fn lemma_tags_begin_once()
    ensures
        open_tag().len() == 9,
        close_tag().len() == 10,
        open_tag()[0] == 0x3c,
        close_tag()[0] == 0x3c,
        forall|j: int| 1 <= j < 9 ==> #[trigger] open_tag()[j] != 0x3c,
        forall|j: int| 1 <= j < 10 ==> #[trigger] close_tag()[j] != 0x3c,
{
}

/// Where the bytes of a document lie that is put together from a text, a
/// fragment and a rest.
proof fn lemma_layout(head: Seq<u8>, inner: Seq<u8>, rest: Seq<u8>)
    ensures
        forall|k: int|
            0 <= k < head.len() ==> #[trigger] (head + tagged(inner) + rest)[k] == head[k],
        forall|k: int|
            0 <= k < 9 ==> #[trigger] (head + tagged(inner) + rest)[head.len() + k] == open_tag()[k],
        forall|k: int|
            0 <= k < inner.len() ==> #[trigger] (head + tagged(inner) + rest)[head.len() + 9 + k]
                == inner[k],
        forall|k: int|
            0 <= k < 10 ==> #[trigger] (head + tagged(inner) + rest)[head.len() + 9 + inner.len()
                + k] == close_tag()[k],
        (head + tagged(inner) + rest).len() == head.len() + 9 + inner.len() + 10 + rest.len(),
{
    lemma_tags_begin_once();
    let tag = tagged(inner);
    assert(tag.len() == 9 + inner.len() + 10);
    assert forall|k: int| 0 <= k < 9 implies #[trigger] tag[k] == open_tag()[k] by {}
    assert forall|k: int| 0 <= k < inner.len() implies #[trigger] tag[9 + k] == inner[k] by {}
    assert forall|k: int| 0 <= k < 10 implies #[trigger] tag[9 + inner.len() + k] == close_tag()[k] by {}
    let doc = head + tag + rest;
    assert forall|k: int| 0 <= k < tag.len() implies #[trigger] doc[head.len() + k] == tag[k] by {}
    assert forall|k: int| 0 <= k < 9 implies #[trigger] doc[head.len() + k] == open_tag()[k] by {
        assert(doc[head.len() + k] == tag[k]);
    }
    assert forall|k: int| 0 <= k < inner.len() implies #[trigger] doc[head.len() + 9 + k]
        == inner[k] by {
        assert(doc[head.len() + (9 + k)] == tag[9 + k]);
    }
    assert forall|k: int| 0 <= k < 10 implies #[trigger] doc[head.len() + 9 + inner.len() + k]
        == close_tag()[k] by {
        assert(doc[head.len() + (9 + inner.len() + k)] == tag[9 + inner.len() + k]);
    }
}

/// A pattern stands at an index exactly where every one of its bytes does.
proof fn lemma_occurs_bytes(doc: Seq<u8>, pattern: Seq<u8>, at: int)
    ensures
        occurs_at(doc, pattern, at) <==> (0 <= at && at + pattern.len() <= doc.len() && forall|
            j: int,
        |
            0 <= j < pattern.len() ==> doc[at + j] == #[trigger] pattern[j]),
{
    if 0 <= at && at + pattern.len() <= doc.len() {
        let found = doc.subrange(at, at + pattern.len());
        if found == pattern {
            assert forall|j: int| 0 <= j < pattern.len() implies doc[at + j]
                == #[trigger] pattern[j] by {
                assert(found[j] == doc[at + j]);
            }
        }
        if forall|j: int| 0 <= j < pattern.len() ==> doc[at + j] == #[trigger] pattern[j] {
            assert(found =~= pattern);
        }
    }
}

/// In a text that is followed by a fragment, no closing tag stands inside
/// the inner text, and the inner text holds no line feed.
proof fn lemma_part_closes(head: Seq<u8>, inner: Seq<u8>, rest: Seq<u8>)
    requires
        is_inner(inner),
    ensures
        closes_at(
            head + tagged(inner) + rest,
            (head.len() + 9) as int,
            (head.len() + 9 + inner.len()) as int,
        ),
{
    let doc = head + tagged(inner) + rest;
    let n = head.len() as int;
    let m = inner.len() as int;
    let end = n + 9 + m;
    lemma_layout(head, inner, rest);
    lemma_tags_begin_once();
    assert(occurs_at(doc, close_tag(), end)) by {
        lemma_occurs_bytes(doc, close_tag(), end);
        assert forall|j: int| 0 <= j < 10 implies doc[end + j] == #[trigger] close_tag()[j] by {
            assert(doc[n + 9 + m + j] == close_tag()[j]);
        }
    }
    assert forall|k: int| n + 9 <= k < end implies #[trigger] doc[k] != LINE_FEED by {
        assert(doc[n + 9 + (k - n - 9)] == inner[k - n - 9]);
    }
    assert forall|k: int| n + 9 <= k < end implies !occurs_at(doc, close_tag(), k) by {
        if occurs_at(doc, close_tag(), k) {
            lemma_occurs_bytes(doc, close_tag(), k);
            if k + 10 <= end {
                let at = k - n - 9;
                lemma_occurs_bytes(inner, close_tag(), at);
                assert forall|j: int| 0 <= j < 10 implies inner[at + j]
                    == #[trigger] close_tag()[j] by {
                    assert(doc[n + 9 + (at + j)] == inner[at + j]);
                    assert(doc[k + j] == close_tag()[j]);
                }
                assert(occurs_at(inner, close_tag(), at));
            } else {
                let j = end - k;
                assert(doc[k + j] == close_tag()[j]);
                assert(doc[n + 9 + m + 0] == close_tag()[0]);
            }
        }
    }
}

/// In a text that is followed by a fragment, no opening tag stands before
/// the fragment.
proof fn lemma_part_opens_first(head: Seq<u8>, inner: Seq<u8>, rest: Seq<u8>)
    requires
        free_of(head, open_tag()),
    ensures
        occurs_at(head + tagged(inner) + rest, open_tag(), head.len() as int),
        forall|s: int|
            0 <= s < head.len() ==> !occurs_at(head + tagged(inner) + rest, open_tag(), s),
{
    let doc = head + tagged(inner) + rest;
    let n = head.len() as int;
    lemma_layout(head, inner, rest);
    lemma_tags_begin_once();
    assert(occurs_at(doc, open_tag(), n)) by {
        lemma_occurs_bytes(doc, open_tag(), n);
        assert forall|j: int| 0 <= j < 9 implies doc[n + j] == #[trigger] open_tag()[j] by {}
    }
    assert forall|s: int| 0 <= s < n implies !occurs_at(doc, open_tag(), s) by {
        if occurs_at(doc, open_tag(), s) {
            lemma_occurs_bytes(doc, open_tag(), s);
            if s + 9 <= n {
                lemma_occurs_bytes(head, open_tag(), s);
                assert forall|j: int| 0 <= j < 9 implies head[s + j]
                    == #[trigger] open_tag()[j] by {
                    assert(doc[s + j] == head[s + j]);
                    assert(doc[s + j] == open_tag()[j]);
                }
                assert(occurs_at(head, open_tag(), s));
            } else {
                let j = n - s;
                assert(doc[s + j] == open_tag()[j]);
                assert(doc[n + 0] == open_tag()[0]);
            }
        }
    }
}

/// In a text that is followed by a fragment, the fragment is the leftmost
/// one, and its inner text is the one between its tags.
proof fn lemma_first_part(head: Seq<u8>, inner: Seq<u8>, rest: Seq<u8>)
    requires
        free_of(head, open_tag()),
        is_inner(inner),
    ensures
        is_first_fragment(
            head + tagged(inner) + rest,
            0,
            head.len() as int,
            (head.len() + 9 + inner.len()) as int,
        ),
{
    lemma_part_closes(head, inner, rest);
    lemma_part_opens_first(head, inner, rest);
}

/// A text and the fragment behind it are decoded to the text and the
/// fragment's plaintext, and what follows is decoded as it would be alone.
proof fn lemma_part_decoded(
    head: Seq<u8>,
    inner: Seq<u8>,
    rest: Seq<u8>,
    plain: Seq<u8>,
    passphrase: Seq<u8>,
)
    requires
        free_of(head, open_tag()),
        is_inner(inner),
        valid_utf8(plain),
        decrypted(inner, passphrase) == Ok::<Seq<u8>, CryptorError>(plain),
    ensures
        spliced(head + tagged(inner) + rest, passphrase, 0) == head + plain + spliced(
            rest,
            passphrase,
            0,
        ),
{
    let doc = head + tagged(inner) + rest;
    let n = head.len() as int;
    let end = n + 9 + inner.len() as int;
    lemma_first_part(head, inner, rest);
    lemma_first_fragment_is(doc, 0, n, end);
    assert(doc.subrange(0, n) == head);
    assert(doc.subrange(n + 9, end) == inner) by {
        lemma_layout(head, inner, rest);
    }
    assert(fragment_text(inner, passphrase) == plain) by {
        decode_utf8_encode_utf8(plain);
    }
    assert(spliced(doc, passphrase, end + 10) == spliced(rest, passphrase, 0)) by {
        let before = head + tagged(inner);
        assert(before.len() == end + 10);
        assert(doc == before + rest);
        lemma_spliced_shift(before, rest, passphrase, 0);
    }
}

/// Decoding keeps the texts and puts the plaintexts in place: in a document
/// whose texts hold no opening tag and whose fragments hold blob texts,
/// each of which decrypts under the passphrase to a plaintext of valid
/// UTF-8, every fragment, tags included, is replaced by its plaintext, in
/// the same order, and every text is kept byte for byte.
pub proof fn lemma_document_decoded(
    head: Seq<u8>,
    parts: Seq<Part>,
    plains: Seq<Seq<u8>>,
    passphrase: Seq<u8>,
)
    requires
        plains.len() == parts.len(),
        free_of(head, open_tag()),
        forall|i: int|
            0 <= i < parts.len() ==> is_inner(#[trigger] parts[i].inner) && free_of(
                parts[i].text,
                open_tag(),
            ),
        forall|i: int|
            0 <= i < parts.len() ==> valid_utf8(#[trigger] plains[i]) && decrypted(
                parts[i].inner,
                passphrase,
            ) == Ok::<Seq<u8>, CryptorError>(plains[i]),
    ensures
        spliced(document(head, parts), passphrase, 0) == plain_document(head, parts, plains),
    decreases parts.len(),
{
    if parts.len() == 0 {
        lemma_text_has_no_fragment(head);
        lemma_first_fragment_none(head, 0);
        assert(head.subrange(0, head.len() as int) == head);
    } else {
        let rest_parts = parts.drop_first();
        let rest_plains = plains.drop_first();
        assert(is_inner(parts[0].inner) && free_of(parts[0].text, open_tag()));
        assert(valid_utf8(plains[0]));
        assert forall|i: int| 0 <= i < rest_parts.len() implies is_inner(
            #[trigger] rest_parts[i].inner,
        ) && free_of(rest_parts[i].text, open_tag()) by {
            assert(rest_parts[i] == parts[i + 1]);
        }
        assert forall|i: int| 0 <= i < rest_parts.len() implies valid_utf8(
            #[trigger] rest_plains[i],
        ) && decrypted(rest_parts[i].inner, passphrase) == Ok::<Seq<u8>, CryptorError>(
            rest_plains[i],
        ) by {
            assert(rest_parts[i] == parts[i + 1]);
            assert(rest_plains[i] == plains[i + 1]);
        }
        lemma_document_decoded(parts[0].text, rest_parts, rest_plains, passphrase);
        lemma_part_decoded(
            head,
            parts[0].inner,
            document(parts[0].text, rest_parts),
            plains[0],
            passphrase,
        );
    }
}

} // verus!
