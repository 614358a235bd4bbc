//! The entry splitter: segments a raw text blob into entry-sized candidates
//! using the delimiter (timestamp) pattern, without losing a character.

use vstd::prelude::*;

use crate::pattern::match_spans_of;
use crate::pattern::regex_match_spans;
use crate::pattern::regex_spec;
use crate::pattern::spans_of;

verus! {

/// Concatenation of a sequence of text segments.
pub open spec fn concat_segments(segs: Seq<Seq<char>>) -> Seq<char>
    decreases segs.len(),
{
    if segs.len() == 0 {
        Seq::empty()
    } else {
        concat_segments(segs.drop_last()) + segs.last()
    }
}

/// The views of a vector of text segments.
pub open spec fn segment_views(segs: Seq<&str>) -> Seq<Seq<char>> {
    segs.map_values(|s: &str| s@)
}

/// The segments that splitting `text` at `spans` yields, having consumed it
/// up to `last`: for each span in order, the non-empty stretch since the
/// previous span's end (if any) followed by the matched text itself; after
/// the final span, any non-empty remainder.
pub open spec fn split_at_spans(text: Seq<char>, spans: Seq<(int, int)>, last: int) -> Seq<
    Seq<char>,
>
    decreases spans.len(),
{
    if spans.len() == 0 {
        if last < text.len() {
            seq![text.subrange(last, text.len() as int)]
        } else {
            Seq::empty()
        }
    } else {
        let head = if last != spans[0].0 {
            seq![text.subrange(last, spans[0].0), text.subrange(spans[0].0, spans[0].1)]
        } else {
            seq![text.subrange(spans[0].0, spans[0].1)]
        };
        head + split_at_spans(text, spans.drop_first(), spans[0].1)
    }
}

proof fn lemma_concat_push(segs: Seq<Seq<char>>, v: Seq<char>)
    ensures
        concat_segments(segs.push(v)) == concat_segments(segs) + v,
{
    assert(segs.push(v).drop_last() =~= segs);
    assert(segs.push(v).last() == v);
}

proof fn lemma_segment_views_push(segs: Seq<&str>, s: &str)
    ensures
        segment_views(segs.push(s)) =~= segment_views(segs).push(s@),
{
}

/// Segments `text` at each match of the delimiter pattern, keeping the
/// matched delimiter text itself as a segment: the result alternates the
/// non-empty span leading up to a delimiter match with the matched text,
/// followed by any non-empty remainder. Concatenating the segments in order
/// reproduces `text` exactly; a non-empty text with no delimiter match comes
/// back as its own single segment.
pub fn split_keep<'a>(r: &regex::Regex, text: &'a str) -> (result: Vec<&'a str>)
    ensures
        segment_views(result@) == split_at_spans(
            text@,
            match_spans_of(regex_spec(*r), text@),
            0,
        ),
        concat_segments(segment_views(result@)) == text@,
        match_spans_of(regex_spec(*r), text@).len() == 0 && text@.len() > 0 ==> result@.len() == 1
            && result@[0]@ == text@,
        match_spans_of(regex_spec(*r), text@).len() == 0 && text@.len() == 0 ==> result@.len()
            == 0,
{
    let spans = regex_match_spans(r, text);
    let ghost sp = spans_of(spans@);
    let n = text.unicode_len();
    let mut result: Vec<&'a str> = Vec::new();
    let mut last: usize = 0;
    let mut i: usize = 0;
    proof {
        assert(sp.skip(0) =~= sp);
        assert(segment_views(result@) =~= Seq::<Seq<char>>::empty());
        assert(Seq::<Seq<char>>::empty() + split_at_spans(text@, sp, 0) =~= split_at_spans(
            text@,
            sp,
            0,
        ));
    }
    while i < spans.len()
        invariant
            n == text@.len(),
            sp == spans_of(spans@),
            sp == match_spans_of(regex_spec(*r), text@),
            forall|k: int|
                0 <= k < spans@.len() ==> (#[trigger] spans@[k]).0 <= spans@[k].1 && spans@[k].1
                    <= n,
            forall|k: int| 0 <= k < spans@.len() - 1 ==> (#[trigger] spans@[k]).1 <= spans@[k
                + 1].0,
            i <= spans@.len(),
            if i == 0 {
                last == 0int
            } else {
                last as int == spans@[i - 1].1
            },
            last <= n,
            concat_segments(segment_views(result@)) == text@.subrange(0, last as int),
            split_at_spans(text@, sp, 0) == segment_views(result@) + split_at_spans(
                text@,
                sp.skip(i as int),
                last as int,
            ),
            spans@.len() == 0 ==> result@.len() == 0,
        decreases spans@.len() - i,
    {
        let start = spans[i].0;
        let end = spans[i].1;
        let ghost resultpre = result@;
        proof {
            if i > 0 {
                assert((#[trigger] spans@[i - 1]).1 <= spans@[i as int].0);
            }
            assert(sp.skip(i as int)[0] == (start as int, end as int));
            assert(sp.skip(i as int).drop_first() =~= sp.skip(i + 1));
        }
        if last != start {
            let seg = text.substring_char(last, start);
            let ghost pre = result@;
            result.push(seg);
            proof {
                lemma_segment_views_push(pre, seg);
                lemma_concat_push(segment_views(pre), seg@);
                assert(text@.subrange(0, last as int) + text@.subrange(last as int, start as int)
                    =~= text@.subrange(0, start as int));
            }
        }
        let delim = text.substring_char(start, end);
        let ghost pre2 = result@;
        result.push(delim);
        proof {
            lemma_segment_views_push(pre2, delim);
            lemma_concat_push(segment_views(pre2), delim@);
            assert(text@.subrange(0, start as int) + text@.subrange(start as int, end as int)
                =~= text@.subrange(0, end as int));
            let head = if last as int != start as int {
                seq![
                    text@.subrange(last as int, start as int),
                    text@.subrange(start as int, end as int),
                ]
            } else {
                seq![text@.subrange(start as int, end as int)]
            };
            assert(split_at_spans(text@, sp.skip(i as int), last as int) == head
                + split_at_spans(text@, sp.skip(i + 1), end as int));
            assert(segment_views(result@) =~= segment_views(resultpre) + head);
            assert(segment_views(resultpre) + (head + split_at_spans(
                text@,
                sp.skip(i + 1),
                end as int,
            )) =~= (segment_views(resultpre) + head) + split_at_spans(
                text@,
                sp.skip(i + 1),
                end as int,
            ));
        }
        last = end;
        i = i + 1;
    }
    proof {
        assert(sp.skip(sp.len() as int) =~= Seq::<(int, int)>::empty());
    }
    if last < n {
        let tail = text.substring_char(last, n);
        let ghost pre3 = result@;
        result.push(tail);
        proof {
            lemma_segment_views_push(pre3, tail);
            lemma_concat_push(segment_views(pre3), tail@);
            assert(text@.subrange(0, last as int) + text@.subrange(last as int, n as int)
                =~= text@.subrange(0, n as int));
            assert(split_at_spans(text@, sp.skip(sp.len() as int), last as int) =~= seq![
                text@.subrange(last as int, n as int),
            ]);
            assert(segment_views(result@) =~= segment_views(pre3) + seq![text@.subrange(
                last as int,
                n as int,
            )]);
        }
    } else {
        proof {
            assert(split_at_spans(text@, sp.skip(sp.len() as int), last as int)
                =~= Seq::<Seq<char>>::empty());
            assert(segment_views(result@) + Seq::<Seq<char>>::empty() =~= segment_views(result@));
        }
    }
    proof {
        assert(text@.subrange(0, n as int) =~= text@);
    }
    result
}

} // verus!
