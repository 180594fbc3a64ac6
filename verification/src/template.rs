//! Filling a template: where in a text the values go, and the text that
//! results. Every place is found in the template as it stands; what a value
//! brings in is copied and never looked at again.

use vstd::prelude::*;
use vstd::string::StringExecFns;
use vstd::string::StringSliceAdditionalSpecFns;
use vstd::string::StrSliceExecFns;
use vstd::utf8::{decode_utf8, encode_utf8, is_char_boundary};

verus! {

/// Whether the byte offset lies within the UTF-8 form of `text` and between
/// two of its characters.
pub open spec fn on_boundary(text: Seq<char>, offset: int) -> bool {
    0 <= offset <= encode_utf8(text).len() && is_char_boundary(encode_utf8(text), offset)
}

/// The number of characters of `text` before the byte offset `offset` of its
/// UTF-8 form.
pub open spec fn chars_before(text: Seq<char>, offset: int) -> nat {
    decode_utf8(encode_utf8(text).subrange(0, offset)).len()
}

/// The index of the character of `text` that starts at the byte offset
/// `offset`; `None` where the offset lies beyond the text or inside a
/// character.
pub fn char_index(text: &str, offset: usize) -> (r: Option<usize>)
    ensures
        match r {
            Some(index) => on_boundary(text@, offset as int) && index == chars_before(
                text@,
                offset as int,
            ),
            None => !on_boundary(text@, offset as int),
        },
{
    if offset <= text.as_bytes().len() && text.is_char_boundary(offset) {
        let (head, _) = text.split_at(offset);
        proof {
            vstd::utf8::encode_utf8_decode_utf8(head@);
            assert(head.spec_bytes() == encode_utf8(head@));
            assert(encode_utf8(head@) =~= encode_utf8(text@).subrange(0, offset as int));
        }
        Some(head.unicode_len())
    } else {
        None
    }
}

/// One value and the places in a text where it goes, each a span of
/// character indices from its start up to its end.
#[derive(Debug, Clone, PartialEq, Eq)]
pub struct Placements {
    pub value: String,
    pub spans: Vec<(usize, usize)>,
}

/// A [`Placements`] with its value as a character sequence.
pub struct PlacementsView {
    pub value: Seq<char>,
    pub spans: Seq<(usize, usize)>,
}

impl View for Placements {
    type V = PlacementsView;

    open spec fn view(&self) -> PlacementsView {
        PlacementsView { value: self.value@, spans: self.spans@ }
    }
}

/// A list of placements over character sequences.
pub open spec fn placements_view(items: Seq<Placements>) -> Seq<PlacementsView> {
    Seq::new(items.len(), |i: int| items[i]@)
}

/// The spans of byte offsets into the UTF-8 form of `text`, as spans of
/// character indices. A span with an offset beyond the text or inside a
/// character is left out.
pub open spec fn char_spans_of(text: Seq<char>, spans: Seq<(usize, usize)>) -> Seq<(usize, usize)>
    decreases spans.len(),
{
    if spans.len() == 0 {
        Seq::empty()
    } else {
        let earlier = char_spans_of(text, spans.drop_last());
        let span = spans.last();
        if on_boundary(text, span.0 as int) && on_boundary(text, span.1 as int) {
            earlier.push(
                (chars_before(text, span.0 as int) as usize, chars_before(text, span.1 as int) as usize),
            )
        } else {
            earlier
        }
    }
}

/// Whether a span is not empty and ends within a text of `len` characters.
pub open spec fn fits(span: (usize, usize), len: int) -> bool {
    span.0 < span.1 <= len
}

/// The end of the first span in the list that starts at `at` and fits a
/// text of `len` characters.
pub open spec fn span_from(spans: Seq<(usize, usize)>, at: int, len: int) -> Option<int>
    decreases spans.len(),
{
    if spans.len() == 0 {
        None
    } else if spans[0].0 == at && fits(spans[0], len) {
        Some(spans[0].1 as int)
    } else {
        span_from(spans.drop_first(), at, len)
    }
}

/// What goes in at the index `at`: the value of the first placement that has
/// a span from there, with the end of that span.
pub open spec fn claim(placements: Seq<PlacementsView>, at: int, len: int) -> Option<
    (Seq<char>, int),
>
    decreases placements.len(),
{
    if placements.len() == 0 {
        None
    } else {
        match span_from(placements[0].spans, at, len) {
            Some(end) => Some((placements[0].value, end)),
            None => claim(placements.drop_first(), at, len),
        }
    }
}

/// A span that is found from `at` ends behind `at` and within the text.
pub proof fn lemma_span_from(spans: Seq<(usize, usize)>, at: int, len: int)
    ensures
        span_from(spans, at, len) matches Some(end) ==> at < end <= len,
    decreases spans.len(),
{
    if spans.len() > 0 {
        lemma_span_from(spans.drop_first(), at, len);
    }
}

/// What goes in at `at` ends behind `at` and within the text.
pub proof fn lemma_claim(placements: Seq<PlacementsView>, at: int, len: int)
    ensures
        claim(placements, at, len) matches Some(found) ==> at < found.1 <= len,
    decreases placements.len(),
{
    if placements.len() > 0 {
        lemma_span_from(placements[0].spans, at, len);
        lemma_claim(placements.drop_first(), at, len);
    }
}

/// The text from the index `at` on, filled: where a value goes in, the value
/// stands in place of its span and the text goes on behind the span; every
/// other character stands as it is. A span that starts inside one that was
/// filled is passed over.
pub open spec fn filled_from(content: Seq<char>, placements: Seq<PlacementsView>, at: int) -> Seq<
    char,
>
    decreases content.len() - at,
{
    if at < 0 || at >= content.len() {
        Seq::empty()
    } else {
        match claim(placements, at, content.len() as int) {
            Some(found) => {
                proof {
                    lemma_claim(placements, at, content.len() as int);
                }
                found.0 + filled_from(content, placements, found.1)
            },
            None => seq![content[at]] + filled_from(content, placements, at + 1),
        }
    }
}

/// The whole text, filled.
pub open spec fn filled(content: Seq<char>, placements: Seq<PlacementsView>) -> Seq<char> {
    filled_from(content, placements, 0)
}

/// No placement has a span.
pub open spec fn unplaced(placements: Seq<PlacementsView>) -> bool {
    forall|i: int| 0 <= i < placements.len() ==> (#[trigger] placements[i]).spans.len() == 0
}

/// Without a span nothing goes in anywhere.
pub proof fn lemma_unplaced_claims_nothing(placements: Seq<PlacementsView>, at: int, len: int)
    requires
        unplaced(placements),
    ensures
        claim(placements, at, len) is None,
    decreases placements.len(),
{
    if placements.len() > 0 {
        let rest = placements.drop_first();
        assert(placements[0].spans.len() == 0);
        assert forall|i: int| 0 <= i < rest.len() implies (#[trigger] rest[i]).spans.len()
            == 0 by {
            assert(rest[i] == placements[i + 1]);
        }
        lemma_unplaced_claims_nothing(rest, at, len);
    }
}

/// A text in which no value has a place stays as it is.
pub proof fn unplaced_text_is_unchanged(
    content: Seq<char>,
    placements: Seq<PlacementsView>,
    at: int,
)
    requires
        unplaced(placements),
        0 <= at <= content.len(),
    ensures
        filled_from(content, placements, at) == content.skip(at),
    decreases content.len() - at,
{
    if at < content.len() {
        lemma_unplaced_claims_nothing(placements, at, content.len() as int);
        unplaced_text_is_unchanged(content, placements, at + 1);
        assert(seq![content[at]] + content.skip(at + 1) =~= content.skip(at));
    } else {
        assert(content.skip(at) =~= Seq::<char>::empty());
    }
}

/// No index is the start of a span for two placements of the list.
pub open spec fn uncontested(placements: Seq<PlacementsView>, len: int) -> bool {
    forall|at: int, i: int, j: int|
        0 <= i < j < placements.len() ==> !(#[trigger] span_from(placements[i].spans, at, len)
            is Some && #[trigger] span_from(placements[j].spans, at, len) is Some)
}

/// Each of the two lists holds every placement of the other.
pub open spec fn same_placements(first: Seq<PlacementsView>, second: Seq<PlacementsView>) -> bool {
    &&& forall|i: int| 0 <= i < first.len() ==> second.contains(#[trigger] first[i])
    &&& forall|j: int| 0 <= j < second.len() ==> first.contains(#[trigger] second[j])
}

/// What goes in at an index comes from one of the placements: the first
/// with a span from there.
pub proof fn lemma_claim_source(placements: Seq<PlacementsView>, at: int, len: int) -> (i: int)
    requires
        claim(placements, at, len) is Some,
    ensures
        0 <= i < placements.len(),
        claim(placements, at, len) == Some(
            (placements[i].value, span_from(placements[i].spans, at, len)->0),
        ),
        span_from(placements[i].spans, at, len) is Some,
    decreases placements.len(),
{
    if span_from(placements[0].spans, at, len) is Some {
        0
    } else {
        let rest = placements.drop_first();
        let i = lemma_claim_source(rest, at, len);
        assert(rest[i] == placements[i + 1]);
        i + 1
    }
}

/// Where no placement has a span from an index, nothing goes in there.
pub proof fn lemma_claim_none(placements: Seq<PlacementsView>, at: int, len: int)
    requires
        forall|i: int|
            0 <= i < placements.len() ==> span_from((#[trigger] placements[i]).spans, at, len)
                is None,
    ensures
        claim(placements, at, len) is None,
    decreases placements.len(),
{
    if placements.len() > 0 {
        let rest = placements.drop_first();
        assert(span_from(placements[0].spans, at, len) is None);
        assert forall|i: int| 0 <= i < rest.len() implies span_from(
            (#[trigger] rest[i]).spans,
            at,
            len,
        ) is None by {
            assert(rest[i] == placements[i + 1]);
        }
        lemma_claim_none(rest, at, len);
    }
}

/// Where an index is uncontested, the one placement with a span from there
/// has it, wherever it stands in the list.
pub proof fn lemma_claim_only(placements: Seq<PlacementsView>, at: int, len: int, i: int)
    requires
        uncontested(placements, len),
        0 <= i < placements.len(),
        span_from(placements[i].spans, at, len) is Some,
    ensures
        claim(placements, at, len) == Some(
            (placements[i].value, span_from(placements[i].spans, at, len)->0),
        ),
{
    let first = lemma_claim_source_or_none(placements, at, len, i);
    if first < i {
        assert(span_from(placements[first].spans, at, len) is Some);
        assert(span_from(placements[i].spans, at, len) is Some);
    } else if i < first {
        assert(span_from(placements[i].spans, at, len) is Some);
        assert(span_from(placements[first].spans, at, len) is Some);
    }
}

/// Where some placement has a span from an index, something goes in there,
/// and it comes from the first such placement.
proof fn lemma_claim_source_or_none(
    placements: Seq<PlacementsView>,
    at: int,
    len: int,
    witness: int,
) -> (i: int)
    requires
        0 <= witness < placements.len(),
        span_from(placements[witness].spans, at, len) is Some,
    ensures
        0 <= i < placements.len(),
        claim(placements, at, len) == Some(
            (placements[i].value, span_from(placements[i].spans, at, len)->0),
        ),
        span_from(placements[i].spans, at, len) is Some,
{
    if claim(placements, at, len) is None {
        lemma_claim_none_means(placements, at, len, witness);
    }
    lemma_claim_source(placements, at, len)
}

/// Where nothing goes in at an index, no placement has a span from there.
proof fn lemma_claim_none_means(placements: Seq<PlacementsView>, at: int, len: int, i: int)
    requires
        claim(placements, at, len) is None,
        0 <= i < placements.len(),
    ensures
        span_from(placements[i].spans, at, len) is None,
    decreases placements.len(),
{
    if i > 0 {
        let rest = placements.drop_first();
        assert(rest[i - 1] == placements[i]);
        lemma_claim_none_means(rest, at, len, i - 1);
    }
}

/// The order of the values does not matter: two lists of the same
/// placements, in which no index is the start of a span for two of them,
/// fill a text alike.
pub proof fn order_of_placements_is_immaterial(
    content: Seq<char>,
    first: Seq<PlacementsView>,
    second: Seq<PlacementsView>,
    at: int,
)
    requires
        same_placements(first, second),
        uncontested(first, content.len() as int),
        uncontested(second, content.len() as int),
    ensures
        filled_from(content, first, at) == filled_from(content, second, at),
    decreases content.len() - at,
{
    let len = content.len() as int;
    if 0 <= at < len {
        if claim(first, at, len) is Some {
            let i = lemma_claim_source(first, at, len);
            assert(second.contains(first[i]));
            let j = choose|j: int| 0 <= j < second.len() && second[j] == first[i];
            lemma_claim_only(second, at, len, j);
            lemma_claim(first, at, len);
            let found = claim(first, at, len)->0;
            order_of_placements_is_immaterial(content, first, second, found.1);
        } else {
            assert forall|j: int| 0 <= j < second.len() implies span_from(
                (#[trigger] second[j]).spans,
                at,
                len,
            ) is None by {
                assert(first.contains(second[j]));
                let i = choose|i: int| 0 <= i < first.len() && first[i] == second[j];
                lemma_claim_none_means(first, at, len, i);
            }
            lemma_claim_none(second, at, len);
            order_of_placements_is_immaterial(content, first, second, at + 1);
        }
    }
}

/// Turns spans of byte offsets into `text` into spans of character indices.
pub fn char_spans(text: &str, spans: &Vec<(usize, usize)>) -> (r: Vec<(usize, usize)>)
    ensures
        r@ == char_spans_of(text@, spans@),
{
    let mut indices: Vec<(usize, usize)> = Vec::new();
    let mut done: usize = 0;
    assert(spans@.take(0) =~= Seq::<(usize, usize)>::empty());
    while done < spans.len()
        invariant
            done <= spans.len(),
            indices@ == char_spans_of(text@, spans@.take(done as int)),
        decreases spans.len() - done,
    {
        proof {
            let upto = spans@.take(done + 1);
            assert(upto.drop_last() =~= spans@.take(done as int));
            assert(upto.last() == spans[done as int]);
        }
        let span = spans[done];
        match (char_index(text, span.0), char_index(text, span.1)) {
            (Some(start), Some(end)) => {
                indices.push((start, end));
            },
            _ => {},
        }
        done += 1;
    }
    assert(spans@.take(done as int) =~= spans@);
    indices
}

/// The end of the first span in the list that starts at `at`, is not empty
/// and ends within `len`.
fn span_at(spans: &Vec<(usize, usize)>, at: usize, len: usize) -> (r: Option<usize>)
    ensures
        match r {
            Some(end) => span_from(spans@, at as int, len as int) == Some(end as int),
            None => span_from(spans@, at as int, len as int) is None,
        },
{
    let mut next: usize = 0;
    assert(spans@.skip(0) =~= spans@);
    while next < spans.len()
        invariant
            next <= spans.len(),
            span_from(spans@, at as int, len as int) == span_from(
                spans@.skip(next as int),
                at as int,
                len as int,
            ),
        decreases spans.len() - next,
    {
        let span = spans[next];
        assert(spans@.skip(next as int)[0] == span);
        if span.0 == at && at < span.1 && span.1 <= len {
            return Some(span.1);
        }
        assert(spans@.skip(next as int).drop_first() =~= spans@.skip(next + 1));
        next += 1;
    }
    assert(spans@.skip(next as int) =~= Seq::<(usize, usize)>::empty());
    None
}

/// What goes in at `at`: the index of the first placement with a span from
/// there, and the end of that span.
fn claim_at(placements: &Vec<Placements>, at: usize, len: usize) -> (r: Option<(usize, usize)>)
    ensures
        match r {
            Some(found) => found.0 < placements.len() && claim(
                placements_view(placements@),
                at as int,
                len as int,
            ) == Some((placements[found.0 as int].value@, found.1 as int)),
            None => claim(placements_view(placements@), at as int, len as int) is None,
        },
{
    let ghost all = placements_view(placements@);
    let mut next: usize = 0;
    assert(all.skip(0) =~= all);
    while next < placements.len()
        invariant
            next <= placements.len(),
            all == placements_view(placements@),
            claim(all, at as int, len as int) == claim(
                all.skip(next as int),
                at as int,
                len as int,
            ),
        decreases placements.len() - next,
    {
        assert(all.skip(next as int)[0] == placements[next as int]@);
        match span_at(&placements[next].spans, at, len) {
            Some(end) => {
                return Some((next, end));
            },
            None => {},
        }
        assert(all.skip(next as int).drop_first() =~= all.skip(next + 1));
        next += 1;
    }
    assert(all.skip(next as int) =~= Seq::<PlacementsView>::empty());
    None
}

/// A span that fits has its start found in the list that holds it.
pub proof fn lemma_span_found(spans: Seq<(usize, usize)>, len: int, k: int)
    requires
        0 <= k < spans.len(),
        fits(spans[k], len),
    ensures
        span_from(spans, spans[k].0 as int, len) is Some,
    decreases spans.len(),
{
    if !(spans[0].0 == spans[k].0 && fits(spans[0], len)) {
        let rest = spans.drop_first();
        assert(rest[k - 1] == spans[k]);
        lemma_span_found(rest, len, k - 1);
    }
}

/// A span that is found from an index stands in the list, starts there and
/// fits.
pub proof fn lemma_span_witness(spans: Seq<(usize, usize)>, at: int, len: int) -> (k: int)
    requires
        span_from(spans, at, len) is Some,
    ensures
        0 <= k < spans.len(),
        spans[k].0 == at,
        fits(spans[k], len),
    decreases spans.len(),
{
    if spans[0].0 == at && fits(spans[0], len) {
        0
    } else {
        let rest = spans.drop_first();
        let k = lemma_span_witness(rest, at, len);
        assert(rest[k] == spans[k + 1]);
        k + 1
    }
}

/// Whether no index is the start of a span for two of the placements. Where
/// that is so, the order of the placements does not matter.
pub fn is_uncontested(placements: &Vec<Placements>, len: usize) -> (r: bool)
    ensures
        r == uncontested(placements_view(placements@), len as int),
{
    let ghost all = placements_view(placements@);
    let mut i: usize = 0;
    while i < placements.len()
        invariant
            i <= placements.len(),
            all == placements_view(placements@),
            forall|at: int, a: int, b: int|
                0 <= a < i && a < b < all.len() ==> !(#[trigger] span_from(
                    all[a].spans,
                    at,
                    len as int,
                ) is Some && #[trigger] span_from(all[b].spans, at, len as int) is Some),
        decreases placements.len() - i,
    {
        let mut k: usize = 0;
        while k < placements[i].spans.len()
            invariant
                i < placements.len(),
                k <= placements[i as int].spans@.len(),
                all == placements_view(placements@),
                forall|done: int, b: int|
                    0 <= done < k && i < b < all.len() && fits(all[i as int].spans[done], len as int)
                        ==> #[trigger] span_from(
                        all[b].spans,
                        all[i as int].spans[done].0 as int,
                        len as int,
                    ) is None,
            decreases placements[i as int].spans@.len() - k,
        {
            let span = placements[i].spans[k];
            assert(all[i as int].spans[k as int] == span);
            if span.0 < span.1 && span.1 <= len {
                let mut j: usize = i + 1;
                while j < placements.len()
                    invariant
                        i < j <= placements.len(),
                        k < placements[i as int].spans@.len(),
                        all == placements_view(placements@),
                        all[i as int].spans[k as int] == span,
                        fits(span, len as int),
                        forall|b: int|
                            i < b < j ==> #[trigger] span_from(
                                all[b].spans,
                                span.0 as int,
                                len as int,
                            ) is None,
                    decreases placements.len() - j,
                {
                    assert(all[j as int].spans == placements[j as int].spans@);
                    if span_at(&placements[j].spans, span.0, len).is_some() {
                        proof {
                            lemma_span_found(all[i as int].spans, len as int, k as int);
                            assert(span_from(all[i as int].spans, span.0 as int, len as int)
                                is Some);
                            assert(span_from(all[j as int].spans, span.0 as int, len as int)
                                is Some);
                        }
                        return false;
                    }
                    j += 1;
                }
            }
            k += 1;
        }
        proof {
            assert forall|at: int, b: int| i < b < all.len() implies !(#[trigger] span_from(
                all[i as int].spans,
                at,
                len as int,
            ) is Some && #[trigger] span_from(all[b].spans, at, len as int) is Some) by {
                if span_from(all[i as int].spans, at, len as int) is Some {
                    let done = lemma_span_witness(all[i as int].spans, at, len as int);
                    assert(span_from(all[b].spans, all[i as int].spans[done].0 as int, len as int)
                        is None);
                }
            }
        }
        i += 1;
    }
    true
}

/// Fills the text: each value stands in place of the spans where it goes,
/// and what a value brings in is not looked at again. Where two spans start
/// at one index the earlier placement has it; a span that is empty, reaches
/// beyond the text or starts inside a span that was filled is passed over.
pub fn fill(content: &str, placements: &Vec<Placements>) -> (r: String)
    ensures
        r@ == filled(content@, placements_view(placements@)),
{
    let ghost all = placements_view(placements@);
    let len = content.unicode_len();
    let mut out = String::new();
    let mut at: usize = 0;
    assert(out@ + filled_from(content@, all, 0) =~= filled_from(content@, all, 0));
    while at < len
        invariant
            at <= len,
            len == content@.len(),
            all == placements_view(placements@),
            filled(content@, all) == out@ + filled_from(content@, all, at as int),
        decreases len - at,
    {
        let ghost before = out@;
        match claim_at(placements, at, len) {
            Some(found) => {
                proof {
                    lemma_claim(all, at as int, len as int);
                }
                out.append(placements[found.0].value.as_str());
                at = found.1;
                assert(before + (placements[found.0 as int].value@ + filled_from(
                    content@,
                    all,
                    at as int,
                )) =~= out@ + filled_from(content@, all, at as int));
            },
            None => {
                out.append(content.substring_char(at, at + 1));
                assert(content@.subrange(at as int, at + 1) =~= seq![content@[at as int]]);
                at += 1;
                assert(before + (seq![content@[at - 1]] + filled_from(content@, all, at as int))
                    =~= out@ + filled_from(content@, all, at as int));
            },
        }
    }
    assert(out@ + filled_from(content@, all, at as int) =~= out@);
    out
}

} // verus!
