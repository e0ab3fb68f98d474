//! The scores by which formats are ranked, and the cascade of keys that
//! compares two formats.

use vstd::prelude::*;
use crate::format::{Format, FormatView};
use crate::json::{Json, JsonView};
use crate::number::{parse_i32, parsed_i32};
use crate::text::{chars_of, contains_text, copy_range, find};

verus! {

/// A key of the ranking: a score that a format has.
#[derive(Clone, Copy, PartialEq, Eq, Structural, Debug)]
pub enum RankKey {
    /// 1 for an HLS manifest, else 0.
    Hls,
    /// 1 for a DASH manifest, else 0.
    DashMpd,
    /// 1 where the content length is a positive integer, else 0.
    ContentLength,
    /// 1 where the stream has both video and audio, else 0.
    VideoAndAudio,
    /// 1 where the stream has video, else 0.
    Video,
    /// The number in the quality label.
    Quality,
    /// The bitrate.
    Bitrate,
    /// The audio bitrate.
    AudioBitrate,
    /// How much the video encoding is wanted: the more, the earlier it
    /// stands in the list of video encodings.
    VideoEncoding,
    /// How much the audio encoding is wanted: the more, the earlier it
    /// stands in the list of audio encodings.
    AudioEncoding,
}

/// The video encodings, the most wanted first.
pub open spec fn video_encodings() -> Seq<Seq<char>> {
    seq!["mp4v"@, "avc1"@, "Sorenson H.283"@, "MPEG-4 Visual"@, "VP8"@, "VP9"@, "H.264"@]
}

/// The audio encodings, the most wanted first.
pub open spec fn audio_encodings() -> Seq<Seq<char>> {
    seq!["mp4a"@, "mp3"@, "vorbis"@, "aac"@, "opus"@, "flac"@]
}

/// The keys of the ranking, the weightiest first. The audio bitrate stands
/// twice; the second changes nothing.
pub open spec fn ranking() -> Seq<RankKey> {
    seq![
        RankKey::Hls,
        RankKey::DashMpd,
        RankKey::ContentLength,
        RankKey::VideoAndAudio,
        RankKey::Video,
        RankKey::Quality,
        RankKey::Bitrate,
        RankKey::AudioBitrate,
        RankKey::AudioBitrate,
        RankKey::VideoEncoding,
        RankKey::AudioEncoding,
    ]
}

/// 1 for true, 0 for false.
pub open spec fn flag(b: bool) -> int {
    if b {
        1
    } else {
        0
    }
}

/// A quality label without the `p` at its end, where it ends in one.
pub open spec fn without_p(label: Seq<char>) -> Seq<char> {
    if label.len() > 0 && label.last() == 'p' {
        label.drop_last()
    } else {
        label
    }
}

/// The number in a quality label: the label without the `p` at its end, read
/// as a signed 32-bit integer. 0 where there is no label or it does not read
/// so.
pub open spec fn quality_of(label: Option<Seq<char>>) -> int {
    match label {
        Some(l) => match parsed_i32(without_p(l)) {
            Some(v) => v,
            None => 0,
        },
        None => 0,
    }
}

/// The score of the first entry of `table`, at or after `from`, that occurs in
/// `codecs`: the number of entries from it to the end of the table, so that
/// an earlier entry scores higher and the last one scores 1. -1 where none
/// occurs.
pub open spec fn encoding_rank_from(table: Seq<Seq<char>>, codecs: Seq<char>, from: int) -> int
    decreases table.len() - from,
{
    if from < 0 || from >= table.len() {
        -1
    } else if contains_text(codecs, table[from]) {
        table.len() - from
    } else {
        encoding_rank_from(table, codecs, from + 1)
    }
}

/// How much the encoding of `codecs` is wanted: the score of the first entry
/// of `table` that occurs in it, an earlier entry scoring higher; -1 where
/// none occurs or the format has no codecs.
pub open spec fn encoding_rank(table: Seq<Seq<char>>, codecs: Option<Seq<char>>) -> int {
    match codecs {
        Some(c) => encoding_rank_from(table, c, 0),
        None => -1,
    }
}

/// An encoding that occurs at an earlier place of the table, and none before
/// it, outranks one that occurs at a later place only, and any that occurs
/// outranks none.
pub proof fn lemma_earlier_encoding_scores_higher(
    table: Seq<Seq<char>>,
    a: Seq<char>,
    b: Seq<char>,
    i: int,
    from: int,
)
    requires
        0 <= from <= i < table.len(),
        contains_text(a, table[i]),
        forall|k: int| from <= k <= i ==> !contains_text(b, #[trigger] table[k]),
    ensures
        encoding_rank_from(table, a, from) >= table.len() - i > encoding_rank_from(table, b, from),
        encoding_rank_from(table, a, from) >= 1,
    decreases table.len() - from,
{
    lemma_encoding_rank_bound(table, b, i + 1);
    if from < i {
        lemma_earlier_encoding_scores_higher(table, a, b, i, from + 1);
    }
}

/// A score of the table from place `from` on is -1 or lies between 1 and the
/// number of entries from `from` on.
pub proof fn lemma_encoding_rank_bound(table: Seq<Seq<char>>, codecs: Seq<char>, from: int)
    requires
        0 <= from,
    ensures
        encoding_rank_from(table, codecs, from) == -1 || 1 <= encoding_rank_from(
            table,
            codecs,
            from,
        ) <= table.len() - from,
    decreases table.len() - from,
{
    if from < table.len() {
        lemma_encoding_rank_bound(table, codecs, from + 1);
    }
}

/// The value is an integer above zero.
pub open spec fn is_positive(value: Option<JsonView>) -> bool {
    match value {
        Some(JsonView::Integer(n)) => n > 0,
        _ => false,
    }
}

/// The number of an optional number, 0 where there is none.
pub open spec fn number_or_zero(n: Option<int>) -> int {
    match n {
        Some(v) => v,
        None => 0,
    }
}

/// The score that a format has under a key.
pub open spec fn score(key: RankKey, f: FormatView) -> int {
    match key {
        RankKey::Hls => flag(f.is_hls),
        RankKey::DashMpd => flag(f.is_dash_mpd),
        RankKey::ContentLength => flag(is_positive(f.content_length)),
        RankKey::VideoAndAudio => flag(f.has_video && f.has_audio),
        RankKey::Video => flag(f.has_video),
        RankKey::Quality => quality_of(f.quality_label),
        RankKey::Bitrate => number_or_zero(f.bitrate),
        RankKey::AudioBitrate => number_or_zero(f.audio_bitrate),
        RankKey::VideoEncoding => encoding_rank(video_encodings(), f.codecs),
        RankKey::AudioEncoding => encoding_rank(audio_encodings(), f.codecs),
    }
}

/// How `a` and `b` compare under the keys from place `from` on: the first key
/// under which their scores differ decides. 1 where `b` has the higher score
/// there, so that `b` goes before `a`; -1 where `a` has it; 0 where no key
/// tells them apart.
pub open spec fn cascade_from(keys: Seq<RankKey>, a: FormatView, b: FormatView, from: int) -> int
    decreases keys.len() - from,
{
    if from < 0 || from >= keys.len() {
        0
    } else if score(keys[from], b) > score(keys[from], a) {
        1
    } else if score(keys[from], b) < score(keys[from], a) {
        -1
    } else {
        cascade_from(keys, a, b, from + 1)
    }
}

/// How `a` and `b` compare under `keys`.
pub open spec fn cascade(keys: Seq<RankKey>, a: FormatView, b: FormatView) -> int {
    cascade_from(keys, a, b, 0)
}

/// A format compares equal to itself.
pub proof fn lemma_cascade_reflexive(keys: Seq<RankKey>, a: FormatView, from: int)
    ensures
        cascade_from(keys, a, a, from) == 0,
    decreases keys.len() - from,
{
    if 0 <= from < keys.len() {
        lemma_cascade_reflexive(keys, a, from + 1);
    }
}

/// Comparing `b` with `a` gives the opposite of comparing `a` with `b`.
pub proof fn lemma_cascade_antisymmetric(
    keys: Seq<RankKey>,
    a: FormatView,
    b: FormatView,
    from: int,
)
    ensures
        cascade_from(keys, b, a, from) == -cascade_from(keys, a, b, from),
    decreases keys.len() - from,
{
    if 0 <= from < keys.len() {
        lemma_cascade_antisymmetric(keys, a, b, from + 1);
    }
}

/// The comparison is transitive: where `b` does not go behind `a` and `c` does
/// not go behind `b`, `c` does not go behind `a`; and where one of the two
/// goes strictly before, so does `c` before `a`.
pub proof fn lemma_cascade_transitive(
    keys: Seq<RankKey>,
    a: FormatView,
    b: FormatView,
    c: FormatView,
    from: int,
)
    requires
        cascade_from(keys, a, b, from) >= 0,
        cascade_from(keys, b, c, from) >= 0,
    ensures
        cascade_from(keys, a, c, from) >= 0,
        cascade_from(keys, a, b, from) > 0 || cascade_from(keys, b, c, from) > 0
            ==> cascade_from(keys, a, c, from) > 0,
    decreases keys.len() - from,
{
    if 0 <= from < keys.len() {
        if score(keys[from], a) == score(keys[from], b) && score(keys[from], b) == score(
            keys[from],
            c,
        ) {
            lemma_cascade_transitive(keys, a, b, c, from + 1);
        }
    }
}

/// Under the ranking the quality label outweighs the bitrate: of two formats
/// that the five weightier keys do not tell apart, the one with the higher
/// number in its label goes first, whatever their bitrates.
pub proof fn lemma_quality_outweighs_bitrate(a: FormatView, b: FormatView)
    requires
        a.is_hls == b.is_hls,
        a.is_dash_mpd == b.is_dash_mpd,
        is_positive(a.content_length) == is_positive(b.content_length),
        a.has_video == b.has_video,
        a.has_audio == b.has_audio,
        quality_of(b.quality_label) > quality_of(a.quality_label),
    ensures
        cascade(ranking(), a, b) == 1,
{
    reveal_with_fuel(cascade_from, 7);
}

/// 1 for true, 0 for false.
fn flag_of(b: bool) -> (r: i64)
    ensures
        r == flag(b),
{
    if b {
        1
    } else {
        0
    }
}

/// The number in the quality label `label`.
pub fn quality(label: &Option<String>) -> (r: i64)
    ensures
        r == quality_of(label.deep_view()),
{
    match label {
        None => 0,
        Some(l) => {
            let chars = chars_of(l.as_str());
            let digits = if chars.len() > 0 && chars[chars.len() - 1] == 'p' {
                copy_range(&chars, 0, chars.len() - 1)
            } else {
                chars
            };
            assert(digits@ =~= without_p(l@));
            match parse_i32(&digits) {
                Some(v) => v as i64,
                None => 0,
            }
        },
    }
}

/// The video encodings, the most wanted first.
pub fn video_encoding_ranks() -> (r: Vec<&'static str>)
    ensures
        r.deep_view() == video_encodings(),
        r.len() == 7,
{
    let r = vec!["mp4v", "avc1", "Sorenson H.283", "MPEG-4 Visual", "VP8", "VP9", "H.264"];
    assert(r.deep_view() =~= video_encodings());
    r
}

/// The audio encodings, the most wanted first.
pub fn audio_encoding_ranks() -> (r: Vec<&'static str>)
    ensures
        r.deep_view() == audio_encodings(),
        r.len() == 6,
{
    let r = vec!["mp4a", "mp3", "vorbis", "aac", "opus", "flac"];
    assert(r.deep_view() =~= audio_encodings());
    r
}

/// How much the encoding of `codecs` is wanted by `table`.
fn rank_in(table: &Vec<&'static str>, codecs: &Option<String>) -> (r: i64)
    requires
        table.len() < 0x1000_0000,
    ensures
        r == encoding_rank(table.deep_view(), codecs.deep_view()),
{
    match codecs {
        None => -1,
        Some(c) => {
            let hay = chars_of(c.as_str());
            let mut i: usize = 0;
            while i < table.len()
                invariant
                    i <= table.len(),
                    table.len() < 0x1000_0000,
                    hay@ == c@,
                    codecs.deep_view() == Some(c@),
                    encoding_rank_from(table.deep_view(), c@, 0) == encoding_rank_from(
                        table.deep_view(),
                        c@,
                        i as int,
                    ),
                decreases table.len() - i,
            {
                let needle = chars_of(table[i]);
                assert(table.deep_view()[i as int] == needle@);
                let found = find(&hay, &needle);
                if found.is_some() {
                    return (table.len() - i) as i64;
                }
                i += 1;
            }
            -1
        },
    }
}

/// The score that `f` has under `key`.
pub fn score_of(key: RankKey, f: &Format) -> (r: i64)
    ensures
        r == score(key, f@),
{
    match key {
        RankKey::Hls => flag_of(f.is_hls),
        RankKey::DashMpd => flag_of(f.is_dash_mpd),
        RankKey::ContentLength => flag_of(
            match &f.content_length {
                Some(Json::Integer(n)) => *n > 0,
                _ => false,
            },
        ),
        RankKey::VideoAndAudio => flag_of(f.has_video && f.has_audio),
        RankKey::Video => flag_of(f.has_video),
        RankKey::Quality => quality(&f.quality_label),
        RankKey::Bitrate => match f.bitrate {
            Some(n) => n,
            None => 0,
        },
        RankKey::AudioBitrate => match f.audio_bitrate {
            Some(n) => n,
            None => 0,
        },
        RankKey::VideoEncoding => rank_in(&video_encoding_ranks(), &f.codecs),
        RankKey::AudioEncoding => rank_in(&audio_encoding_ranks(), &f.codecs),
    }
}

/// The keys of the ranking, the weightiest first.
pub fn ranking_keys() -> (r: Vec<RankKey>)
    ensures
        r@ == ranking(),
{
    let r = vec![
        RankKey::Hls,
        RankKey::DashMpd,
        RankKey::ContentLength,
        RankKey::VideoAndAudio,
        RankKey::Video,
        RankKey::Quality,
        RankKey::Bitrate,
        RankKey::AudioBitrate,
        RankKey::AudioBitrate,
        RankKey::VideoEncoding,
        RankKey::AudioEncoding,
    ];
    assert(r@ =~= ranking());
    r
}

/// `sign` is how `a` and `b` compare under the key functions `keys` from place
/// `from` on, for scores that the functions may return: the first function
/// that scores them differently decides, 1 where it scores `b` higher, -1
/// where it scores `a` higher; 0 where none tells them apart.
pub open spec fn decides_from<F: Fn(&Format) -> i64>(
    keys: Seq<F>,
    a: Format,
    b: Format,
    from: int,
    sign: int,
) -> bool
    decreases keys.len() - from,
{
    if from < 0 || from >= keys.len() {
        sign == 0
    } else {
        exists|score_a: i64, score_b: i64|
            {
                &&& #[trigger] call_ensures(keys[from], (&a,), score_a)
                &&& #[trigger] call_ensures(keys[from], (&b,), score_b)
                &&& if score_b > score_a {
                    sign == 1
                } else if score_b < score_a {
                    sign == -1
                } else {
                    decides_from(keys, a, b, from + 1, sign)
                }
            }
    }
}

/// `sign` is how `a` and `b` compare under the key functions `keys`.
pub open spec fn decides<F: Fn(&Format) -> i64>(keys: Seq<F>, a: Format, b: Format, sign: int) -> bool {
    decides_from(keys, a, b, 0, sign)
}

/// Key functions that return the scores of the keys `named` compare two
/// formats as the cascade of those keys does.
pub proof fn lemma_score_functions_decide_as_keys<F: Fn(&Format) -> i64>(
    keys: Seq<F>,
    named: Seq<RankKey>,
    a: Format,
    b: Format,
    from: int,
    sign: int,
)
    requires
        keys.len() == named.len(),
        forall|i: int, f: &Format, r: i64|
            0 <= i < keys.len() && #[trigger] call_ensures(keys[i], (f,), r) ==> r == score(
                named[i],
                f@,
            ),
        decides_from(keys, a, b, from, sign),
    ensures
        sign == cascade_from(named, a@, b@, from),
    decreases keys.len() - from,
{
    if 0 <= from < keys.len() {
        let (score_a, score_b) = choose|score_a: i64, score_b: i64|
            {
                &&& #[trigger] call_ensures(keys[from], (&a,), score_a)
                &&& #[trigger] call_ensures(keys[from], (&b,), score_b)
                &&& if score_b > score_a {
                    sign == 1
                } else if score_b < score_a {
                    sign == -1
                } else {
                    decides_from(keys, a, b, from + 1, sign)
                }
            };
        if score_a == score_b {
            lemma_score_functions_decide_as_keys(keys, named, a, b, from + 1, sign);
        }
    }
}

/// How `a` and `b` compare under the key functions `keys`: 1 where the first
/// function that scores them differently scores `b` higher, so that `b` goes
/// before `a`; -1 where it scores `a` higher; 0 where none tells them apart.
/// No function behind the deciding one is called.
pub fn compare_with<F: Fn(&Format) -> i64>(a: &Format, b: &Format, keys: &Vec<F>) -> (r: i8)
    requires
        forall|i: int|
            0 <= i < keys.len() ==> call_requires(#[trigger] keys[i], (a,)) && call_requires(
                keys[i],
                (b,),
            ),
    ensures
        decides(keys@, *a, *b, r as int),
        r == 1 || r == -1 || r == 0,
{
    let mut i: usize = 0;
    while i < keys.len()
        invariant
            i <= keys.len(),
            forall|k: int|
                0 <= k < keys.len() ==> call_requires(#[trigger] keys[k], (a,)) && call_requires(
                    keys[k],
                    (b,),
                ),
            forall|sign: int| #[trigger]
                decides_from(keys@, *a, *b, i as int, sign) ==> decides(keys@, *a, *b, sign),
        decreases keys.len() - i,
    {
        let key = &keys[i];
        let score_b = key(b);
        let score_a = key(a);
        assert(call_ensures(keys@[i as int], (a,), score_a));
        assert(call_ensures(keys@[i as int], (b,), score_b));
        if score_b > score_a {
            assert(decides_from(keys@, *a, *b, i as int, 1));
            return 1;
        }
        if score_b < score_a {
            assert(decides_from(keys@, *a, *b, i as int, -1));
            return -1;
        }
        assert forall|sign: int| #[trigger]
            decides_from(keys@, *a, *b, i + 1, sign) implies decides(keys@, *a, *b, sign) by {
            assert(decides_from(keys@, *a, *b, i as int, sign));
        }
        i += 1;
    }
    assert(decides_from(keys@, *a, *b, i as int, 0));
    0
}

/// How `a` and `b` compare under `keys`: 1 where `b` goes before `a`, -1 where
/// `a` goes before `b`, 0 where no key tells them apart.
pub fn compare_by(a: &Format, b: &Format, keys: &Vec<RankKey>) -> (r: i8)
    ensures
        r == cascade(keys@, a@, b@),
{
    let mut i: usize = 0;
    while i < keys.len()
        invariant
            i <= keys.len(),
            cascade(keys@, a@, b@) == cascade_from(keys@, a@, b@, i as int),
        decreases keys.len() - i,
    {
        let score_a = score_of(keys[i], a);
        let score_b = score_of(keys[i], b);
        if score_b > score_a {
            return 1;
        }
        if score_b < score_a {
            return -1;
        }
        i += 1;
    }
    0
}

} // verus!
