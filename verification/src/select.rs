//! Choosing one of a video's formats: filtering by what a caller wants, and
//! picking the best or the worst of what is left.

use vstd::prelude::*;
use crate::format::{Format, FormatView, VideoOptions, VideoQuality, VideoSearchOptions};
use crate::rank::{
    cascade, compare_by, lemma_cascade_antisymmetric, lemma_cascade_reflexive,
    lemma_cascade_transitive, ranking, ranking_keys,
};

verus! {

/// Why no format was chosen.
#[derive(Clone, Copy, PartialEq, Eq, Structural, Debug)]
pub enum SelectionError {
    /// The precondition of a selection does not hold: there is no format to
    /// choose from.
    Precondition,
}

/// Whether a format is of the kind that `filter` asks for.
pub open spec fn wanted(filter: VideoSearchOptions, f: FormatView) -> bool {
    match filter {
        VideoSearchOptions::Audio => f.has_audio && !f.has_video,
        VideoSearchOptions::Video => f.has_video && !f.has_audio,
        VideoSearchOptions::VideoAudio => f.has_video && f.has_audio,
    }
}

/// The formats of the kind that `filter` asks for, in their order.
pub open spec fn filtered(formats: Seq<Format>, filter: VideoSearchOptions) -> Seq<Format> {
    formats.filter(|f: Format| wanted(filter, f@))
}

/// One of the formats is an HLS manifest.
pub open spec fn has_hls(formats: Seq<Format>) -> bool {
    exists|i: int| 0 <= i < formats.len() && (#[trigger] formats[i])@.is_hls
}

/// The formats that are HLS manifests or not live, in their order.
pub open spec fn hls_or_not_live(formats: Seq<Format>) -> Seq<Format> {
    formats.filter(|f: Format| f@.is_hls || !f@.is_live)
}

/// The formats among which one is chosen: those of the kind that `filter` asks
/// for; but where one of these is an HLS manifest, all formats that are HLS
/// manifests or not live, of whatever kind.
pub open spec fn candidates(formats: Seq<Format>, filter: VideoSearchOptions) -> Seq<Format> {
    if has_hls(filtered(formats, filter)) {
        hls_or_not_live(formats)
    } else {
        filtered(formats, filter)
    }
}

/// The candidate at `i` is the first of those that no candidate outranks:
/// it outranks every candidate before it, and none behind it outranks it.
pub open spec fn is_highest(c: Seq<Format>, i: int) -> bool {
    &&& 0 <= i < c.len()
    &&& forall|j: int| 0 <= j < i ==> cascade(ranking(), c[i]@, #[trigger] c[j]@) < 0
    &&& forall|j: int| i <= j < c.len() ==> cascade(ranking(), c[i]@, #[trigger] c[j]@) <= 0
}

/// The candidate at `i` is the last of those that outrank no candidate: every
/// candidate behind it outranks it, and it outranks none before it.
pub open spec fn is_lowest(c: Seq<Format>, i: int) -> bool {
    &&& 0 <= i < c.len()
    &&& forall|j: int| 0 <= j <= i ==> cascade(ranking(), c[i]@, #[trigger] c[j]@) >= 0
    &&& forall|j: int| i < j < c.len() ==> cascade(ranking(), c[i]@, #[trigger] c[j]@) > 0
}

/// The candidate at `i` is the one to choose for `quality`. Sorted by the
/// ranking, with candidates that rank alike left in their order, the highest
/// is the first and the lowest the last.
pub open spec fn is_choice(c: Seq<Format>, quality: VideoQuality, i: int) -> bool {
    match quality {
        VideoQuality::Highest => is_highest(c, i),
        VideoQuality::Lowest => is_lowest(c, i),
    }
}

/// There is one choice at most.
pub proof fn lemma_choice_unique(c: Seq<Format>, quality: VideoQuality, i: int, k: int)
    requires
        is_choice(c, quality, i),
        is_choice(c, quality, k),
    ensures
        i == k,
{
    if i != k {
        lemma_cascade_antisymmetric(ranking(), c[i]@, c[k]@, 0);
        assert(cascade(ranking(), c[i]@, c[k]@) == -cascade(ranking(), c[k]@, c[i]@));
    }
}

/// `order` lists the places of the candidates `c` as a stable sort by the
/// ranking leaves them: every place once, no candidate before one that
/// outranks it, and candidates that rank alike in their order.
pub open spec fn is_stable_sorting(c: Seq<Format>, order: Seq<int>) -> bool {
    &&& order.len() == c.len()
    &&& forall|p: int| 0 <= p < order.len() ==> 0 <= #[trigger] order[p] < c.len()
    &&& forall|j: int| 0 <= j < c.len() ==> #[trigger] order.contains(j)
    &&& forall|p: int, q: int|
        0 <= p < q < order.len() ==> {
            let sign = cascade(ranking(), c[#[trigger] order[p]]@, c[#[trigger] order[q]]@);
            sign < 0 || (sign == 0 && order[p] < order[q])
        }
}

/// Of candidates sorted by the ranking, with those that rank alike left in
/// their order, the first is the highest choice and the last the lowest.
pub proof fn lemma_choice_ends_stable_sorting(c: Seq<Format>, order: Seq<int>)
    requires
        c.len() > 0,
        is_stable_sorting(c, order),
    ensures
        is_highest(c, order[0]),
        is_lowest(c, order[order.len() - 1]),
{
    let first = order[0];
    let last = order[order.len() - 1];
    lemma_cascade_reflexive(ranking(), c[first]@, 0);
    lemma_cascade_reflexive(ranking(), c[last]@, 0);
    assert forall|j: int| 0 <= j < c.len() implies (if j < first {
        cascade(ranking(), c[first]@, #[trigger] c[j]@) < 0
    } else {
        cascade(ranking(), c[first]@, c[j]@) <= 0
    }) by {
        assert(order.contains(j));
        let q = order.index_of(j);
        if q > 0 {
            assert(order[0] == first && order[q] == j);
        }
    }
    assert forall|j: int| 0 <= j < c.len() implies (if j > last {
        cascade(ranking(), c[last]@, #[trigger] c[j]@) > 0
    } else {
        cascade(ranking(), c[last]@, c[j]@) >= 0
    }) by {
        assert(order.contains(j));
        let p = order.index_of(j);
        lemma_cascade_antisymmetric(ranking(), c[j]@, c[last]@, 0);
        if p < order.len() - 1 {
            assert(order[p] == j && order[order.len() - 1] == last);
        }
    }
}

/// A filter for audio lets no format through that has video.
pub proof fn lemma_audio_filter_excludes_video(formats: Seq<Format>, i: int)
    requires
        0 <= i < filtered(formats, VideoSearchOptions::Audio).len(),
    ensures
        !filtered(formats, VideoSearchOptions::Audio)[i]@.has_video,
        filtered(formats, VideoSearchOptions::Audio)[i]@.has_audio,
{
    formats.lemma_filter_pred(|f: Format| wanted(VideoSearchOptions::Audio, f@), i);
}

/// Where a format of the wanted kind is an HLS manifest, the candidates are
/// widened: a format is a candidate if and only if it is an HLS manifest or
/// not live. So a format that is neither HLS nor live is a candidate whatever
/// its kind, and a live format that is not HLS is none.
pub proof fn lemma_hls_widening(formats: Seq<Format>, filter: VideoSearchOptions, k: int)
    requires
        0 <= k < formats.len(),
        wanted(filter, formats[k]@),
        formats[k]@.is_hls,
    ensures
        candidates(formats, filter) == hls_or_not_live(formats),
        forall|i: int|
            0 <= i < formats.len() ==> (candidates(formats, filter).contains(#[trigger] formats[i])
                <==> formats[i]@.is_hls || !formats[i]@.is_live),
{
    let kind = |f: Format| wanted(filter, f@);
    let open_to = |f: Format| f@.is_hls || !f@.is_live;
    formats.lemma_filter_contains(kind, k);
    let base = filtered(formats, filter);
    let at = base.index_of(formats[k]);
    assert(base[at]@.is_hls);
    assert(has_hls(base));
    assert forall|i: int| 0 <= i < formats.len() implies (hls_or_not_live(formats).contains(
        #[trigger] formats[i],
    ) <==> formats[i]@.is_hls || !formats[i]@.is_live) by {
        if open_to(formats[i]) {
            formats.lemma_filter_contains(open_to, i);
        }
        if hls_or_not_live(formats).contains(formats[i]) {
            formats.lemma_filter_contains_rev(open_to, formats[i]);
        }
    }
}

/// Every candidate is one of the formats.
pub proof fn lemma_candidate_is_format(formats: Seq<Format>, filter: VideoSearchOptions, i: int)
    requires
        0 <= i < candidates(formats, filter).len(),
    ensures
        formats.contains(candidates(formats, filter)[i]),
{
    let c = candidates(formats, filter);
    if has_hls(filtered(formats, filter)) {
        assert(hls_or_not_live(formats).contains(c[i]));
        formats.lemma_filter_contains_rev(|f: Format| f@.is_hls || !f@.is_live, c[i]);
    } else {
        assert(filtered(formats, filter).contains(c[i]));
        formats.lemma_filter_contains_rev(|f: Format| wanted(filter, f@), c[i]);
    }
}

/// Without formats there is no candidate.
pub proof fn lemma_no_formats_no_candidates(formats: Seq<Format>, filter: VideoSearchOptions)
    requires
        formats.len() == 0,
    ensures
        candidates(formats, filter).len() == 0,
{
    formats.lemma_filter_len(|f: Format| wanted(filter, f@));
    formats.lemma_filter_len(|f: Format| f@.is_hls || !f@.is_live);
}

/// The formats behind a list of references.
pub open spec fn referents(refs: Seq<&Format>) -> Seq<Format> {
    refs.map_values(|f: &Format| *f)
}

/// Whether `f` is of the kind that `filter` asks for.
pub fn is_wanted(filter: VideoSearchOptions, f: &Format) -> (r: bool)
    ensures
        r == wanted(filter, f@),
{
    match filter {
        VideoSearchOptions::Audio => f.has_audio && !f.has_video,
        VideoSearchOptions::Video => f.has_video && !f.has_audio,
        VideoSearchOptions::VideoAudio => f.has_video && f.has_audio,
    }
}

/// The formats of the kind that `options` asks for, in their order: for
/// `Audio` those with audio and without video, for `Video` those with video
/// and without audio, else those with both.
pub fn filter_formats<'a>(formats: &'a Vec<Format>, options: &'a VideoOptions) -> (r: Vec<
    &'a Format,
>)
    ensures
        referents(r@) == filtered(formats@, options.filter),
{
    let ghost keep = |f: Format| wanted(options.filter, f@);
    let mut r: Vec<&Format> = Vec::new();
    let mut i: usize = 0;
    proof {
        reveal(Seq::filter);
        assert(formats@.take(0).filter(keep) =~= Seq::<Format>::empty());
        assert(referents(r@) =~= Seq::<Format>::empty());
    }
    while i < formats.len()
        invariant
            i <= formats.len(),
            keep == |f: Format| wanted(options.filter, f@),
            referents(r@) == formats@.take(i as int).filter(keep),
        decreases formats.len() - i,
    {
        proof {
            formats@.take(i as int).lemma_filter_push(formats@[i as int], keep);
            assert(formats@.take(i as int).push(formats@[i as int]) =~= formats@.take(i + 1));
        }
        let ghost before = r@;
        if is_wanted(options.filter, &formats[i]) {
            r.push(&formats[i]);
            assert(referents(r@) =~= referents(before).push(formats@[i as int]));
        }
        i += 1;
    }
    assert(formats@.take(formats.len() as int) =~= formats@);
    r
}

/// The formats that are HLS manifests or not live, in their order.
fn widened<'a>(formats: &'a Vec<Format>) -> (r: Vec<&'a Format>)
    ensures
        referents(r@) == hls_or_not_live(formats@),
{
    let ghost keep = |f: Format| f@.is_hls || !f@.is_live;
    let mut r: Vec<&Format> = Vec::new();
    let mut i: usize = 0;
    proof {
        reveal(Seq::filter);
        assert(formats@.take(0).filter(keep) =~= Seq::<Format>::empty());
        assert(referents(r@) =~= Seq::<Format>::empty());
    }
    while i < formats.len()
        invariant
            i <= formats.len(),
            keep == |f: Format| f@.is_hls || !f@.is_live,
            referents(r@) == formats@.take(i as int).filter(keep),
        decreases formats.len() - i,
    {
        proof {
            formats@.take(i as int).lemma_filter_push(formats@[i as int], keep);
            assert(formats@.take(i as int).push(formats@[i as int]) =~= formats@.take(i + 1));
        }
        let ghost before = r@;
        if formats[i].is_hls || !formats[i].is_live {
            r.push(&formats[i]);
            assert(referents(r@) =~= referents(before).push(formats@[i as int]));
        }
        i += 1;
    }
    assert(formats@.take(formats.len() as int) =~= formats@);
    r
}

/// Whether one of `formats` is an HLS manifest.
fn any_hls(formats: &Vec<&Format>) -> (r: bool)
    ensures
        r == has_hls(referents(formats@)),
{
    let mut i: usize = 0;
    while i < formats.len()
        invariant
            i <= formats.len(),
            forall|j: int| 0 <= j < i ==> !(#[trigger] referents(formats@)[j])@.is_hls,
        decreases formats.len() - i,
    {
        if formats[i].is_hls {
            assert(referents(formats@)[i as int]@.is_hls);
            return true;
        }
        i += 1;
    }
    false
}

/// The formats among which one is chosen for `options`.
pub fn candidate_formats<'a>(formats: &'a Vec<Format>, options: &'a VideoOptions) -> (r: Vec<
    &'a Format,
>)
    ensures
        referents(r@) == candidates(formats@, options.filter),
{
    let base = filter_formats(formats, options);
    if any_hls(&base) {
        widened(formats)
    } else {
        base
    }
}

/// The place of the choice among the candidates `c`.
fn choice_index(c: &Vec<&Format>, quality: VideoQuality) -> (r: usize)
    requires
        c.len() > 0,
    ensures
        is_choice(referents(c@), quality, r as int),
{
    let keys = ranking_keys();
    let ghost list = referents(c@);
    let mut best: usize = 0;
    let mut k: usize = 1;
    proof {
        lemma_cascade_reflexive(ranking(), list[0]@, 0);
    }
    while k < c.len()
        invariant
            1 <= k <= c.len(),
            best < k,
            keys@ == ranking(),
            list == referents(c@),
            list.len() == c.len(),
            is_choice(list.take(k as int), quality, best as int),
        decreases c.len() - k,
    {
        let sign = compare_by(c[best], c[k], &keys);
        let ghost seen = list.take(k as int);
        let ghost more = list.take(k + 1);
        let ghost old_best = best as int;
        assert(sign == cascade(ranking(), list[old_best]@, list[k as int]@));
        let replace = match quality {
            VideoQuality::Highest => sign > 0,
            VideoQuality::Lowest => sign <= 0,
        };
        if replace {
            best = k;
        }
        proof {
            lemma_cascade_reflexive(ranking(), list[k as int]@, 0);
            lemma_cascade_antisymmetric(ranking(), list[old_best]@, list[k as int]@, 0);
            assert forall|j: int| 0 <= j < k + 1 implies more[j] == list[j] by {}
            assert forall|j: int| 0 <= j < k implies seen[j] == list[j] by {}
            if replace {
                assert forall|j: int| 0 <= j < k implies (match quality {
                    VideoQuality::Highest => cascade(ranking(), list[k as int]@, list[j]@) < 0,
                    VideoQuality::Lowest => cascade(ranking(), list[k as int]@, list[j]@) >= 0,
                }) by {
                    assert(seen[j] == list[j]);
                    lemma_cascade_antisymmetric(ranking(), list[old_best]@, list[j]@, 0);
                    lemma_cascade_antisymmetric(ranking(), list[k as int]@, list[j]@, 0);
                    match quality {
                        VideoQuality::Highest => {
                            // list[j] <= old best < list[k]
                            lemma_cascade_transitive(
                                ranking(),
                                list[j]@,
                                list[old_best]@,
                                list[k as int]@,
                                0,
                            );
                        },
                        VideoQuality::Lowest => {
                            // list[k] <= old best <= list[j]
                            lemma_cascade_transitive(
                                ranking(),
                                list[k as int]@,
                                list[old_best]@,
                                list[j]@,
                                0,
                            );
                        },
                    }
                }
            }
            assert(is_choice(more, quality, best as int));
        }
        k += 1;
    }
    assert(list.take(c.len() as int) =~= list);
    best
}

/// Chooses one of `formats`. The candidates are the formats of the kind that
/// `options` asks for; but where one of these is an HLS manifest, they are all
/// formats that are HLS manifests or not live. Of the candidates, sorted by
/// the ranking, the first is chosen for `Highest` and the last for `Lowest`.
/// Without a candidate there is no choice, and the error says so; what is
/// chosen is always one of `formats`.
pub fn choose_format<'a>(formats: &'a Vec<Format>, options: &'a VideoOptions) -> (r: Result<
    &'a Format,
    SelectionError,
>)
    ensures
        match r {
            Ok(f) => exists|i: int|
                is_choice(candidates(formats@, options.filter), options.quality, i)
                    && *f == #[trigger] candidates(formats@, options.filter)[i],
            Err(e) => e == SelectionError::Precondition && candidates(
                formats@,
                options.filter,
            ).len() == 0,
        },
        r matches Ok(f) ==> formats@.contains(*f),
        formats.len() == 0 ==> r is Err,
{
    let c = candidate_formats(formats, options);
    proof {
        if formats.len() == 0 {
            lemma_no_formats_no_candidates(formats@, options.filter);
        }
    }
    if c.len() == 0 {
        return Err(SelectionError::Precondition);
    }
    let i = choice_index(&c, options.quality);
    assert(referents(c@)[i as int] == *c@[i as int]);
    proof {
        lemma_candidate_is_format(formats@, options.filter, i as int);
    }
    Ok(c[i])
}

} // verus!
