//! Normalizing the formats of a player response: each gets its resolved URL
//! and the fields derived from its mime type, its labels and that URL.

use vstd::prelude::*;
use crate::decipher::{
    answers_decipher, answers_ncode, ncode_argument, ncoded, resolved_format, resolved_url,
    set_download_url, snippet_at, InvocationError,
};
use crate::extract::before_first;
use crate::format::{format_of, Format, FormatView};
use crate::json::Json;
use crate::pattern::{is_match, matches_pattern};
use crate::scan::{between_range, between_spec};
use crate::text::{
    chars_of, copy_range, find, find_from, first_occurrence, first_occurrence_from,
    lemma_first_occurrence_from, lemma_first_occurrence_is, occurs_at, string_of,
};

verus! {

/// The expression that the URL of a live broadcast matches.
pub const LIVE_PATTERN: &'static str = "\\bsource[/=]yt_live_broadcast\\b";

/// The expression that the URL of an HLS manifest matches.
pub const HLS_PATTERN: &'static str = "/manifest/hls_(variant|playlist)/";

/// The expression that the URL of a DASH manifest matches.
pub const DASH_PATTERN: &'static str = "/manifest/dash/";

/// What stands in a mime type just before the codecs.
pub const CODECS_LEFT: &'static str = "codecs=\"";

/// What stands in a mime type just behind the codecs.
pub const CODECS_RIGHT: &'static str = "\"";

/// What separates two codecs.
pub const CODEC_SEPARATOR: &'static str = ", ";

/// The part of `s` behind the last `sep`, or all of `s` where there is none.
pub open spec fn after_last(s: Seq<char>, sep: Seq<char>) -> Seq<char>
    decreases s.len(),
{
    match first_occurrence(s, sep) {
        Some(i) => if sep.len() > 0 && occurs_at(s, sep, i) {
            after_last(s.skip(i + sep.len()), sep)
        } else {
            s
        },
        None => s,
    }
}

/// The container that a mime type names: in the part before the first `;`,
/// what stands between the first `/` and the next one or the end. Empty where
/// that part has no `/`.
pub open spec fn container_of(mime: Seq<char>) -> Seq<char> {
    let kind = before_first(mime, ";"@);
    match first_occurrence(kind, "/"@) {
        Some(i) => before_first(kind.skip(i + 1), "/"@),
        None => Seq::empty(),
    }
}

/// The codecs that a mime type lists between `codecs="` and `"`.
pub open spec fn codecs_of(mime: Seq<char>) -> Seq<char> {
    between_spec(mime, CODECS_LEFT@, CODECS_RIGHT@)
}

/// `found` where it is not empty, else `kept`.
pub open spec fn found_or(found: Seq<char>, kept: Option<Seq<char>>) -> Option<Seq<char>> {
    if found.len() > 0 {
        Some(found)
    } else {
        kept
    }
}

/// A format with `url` as its URL and with the derived fields stamped on it.
/// It has video where it has a quality label, and audio where it has an audio
/// bitrate or an audio quality. Container and codecs come from the mime type;
/// the video codec is the first of the codecs and the audio codec the last. A
/// field that cannot be derived keeps its value. Live, HLS and DASH are read
/// off the URL.
pub open spec fn derived(f: FormatView, url: Seq<char>) -> FormatView {
    let has_video = f.quality_label is Some;
    let has_audio = f.audio_bitrate is Some || f.audio_quality is Some;
    let container = match f.mime_type {
        Some(mime) => found_or(container_of(mime), f.container),
        None => f.container,
    };
    let codecs = match f.mime_type {
        Some(mime) => found_or(codecs_of(mime), f.codecs),
        None => f.codecs,
    };
    FormatView {
        url: Some(url),
        signature_cipher: None,
        cipher: None,
        has_video: has_video,
        has_audio: has_audio,
        container: container,
        codecs: codecs,
        video_codec: if has_video && codecs is Some {
            found_or(before_first(codecs.unwrap(), CODEC_SEPARATOR@), f.video_codec)
        } else {
            f.video_codec
        },
        audio_codec: if has_audio && codecs is Some {
            found_or(after_last(codecs.unwrap(), CODEC_SEPARATOR@), f.audio_codec)
        } else {
            f.audio_codec
        },
        is_live: matches_pattern(LIVE_PATTERN@, url),
        is_hls: matches_pattern(HLS_PATTERN@, url),
        is_dash_mpd: matches_pattern(DASH_PATTERN@, url),
        ..f
    }
}

/// A format once normalized, given what came of the two calls that resolving
/// its URL may make.
pub open spec fn normalized(
    f: FormatView,
    functions: Seq<Seq<char>>,
    signature: Option<Seq<char>>,
    n: Option<Seq<char>>,
) -> FormatView {
    derived(
        resolved_format(f, functions, signature, n),
        resolved_url(f, functions, signature, n),
    )
}

/// Normalizing a normalized format again leaves `has_video` and `has_audio`
/// as they are, whatever the calls answer. Its URL goes through the
/// n-transform once more, and through nothing else; so it stays as it is
/// where the second pass transforms no `n` parameter.
pub proof fn lemma_normalized_again(
    f: FormatView,
    functions: Seq<Seq<char>>,
    signature: Option<Seq<char>>,
    n: Option<Seq<char>>,
    functions_again: Seq<Seq<char>>,
    signature_again: Option<Seq<char>>,
    n_again: Option<Seq<char>>,
)
    ensures
        ({
            let once = normalized(f, functions, signature, n);
            let twice = normalized(once, functions_again, signature_again, n_again);
            let url = once.url.unwrap();
            &&& twice.has_video == once.has_video
            &&& twice.has_audio == once.has_audio
            &&& twice.url == Some(ncoded(url, snippet_at(functions_again, 1), n_again))
            &&& n_again is None ==> twice.url == once.url
            &&& ncode_argument(url, snippet_at(functions_again, 1)) is None ==> twice.url
                == once.url
        }),
{
}

/// The part of `s` before the first `sep`.
fn prefix_before(s: &Vec<char>, sep: &Vec<char>) -> (r: Vec<char>)
    ensures
        r@ == before_first(s@, sep@),
{
    proof {
        lemma_first_occurrence_from(s@, sep@, 0);
    }
    match find(s, sep) {
        Some(i) => {
            assert(occurs_at(s@, sep@, i as int));
            let r = copy_range(s, 0, i);
            assert(s@.subrange(0, i as int) == s@.take(i as int));
            r
        },
        None => {
            let r = copy_range(s, 0, s.len());
            assert(s@.subrange(0, s.len() as int) == s@);
            r
        },
    }
}

/// `after_last` of the part of `s` from `from` on is that of the part from
/// `next` on, where `sep` occurs first at `at` behind `from` and `next` is
/// where that occurrence ends.
proof fn lemma_after_last_step(s: Seq<char>, sep: Seq<char>, from: int, at: int)
    requires
        0 <= from <= at,
        sep.len() > 0,
        first_occurrence_from(s, sep, from) == Some(at),
    ensures
        at + sep.len() <= s.len(),
        after_last(s.skip(from), sep) == after_last(s.skip(at + sep.len()), sep),
{
    lemma_first_occurrence_from(s, sep, from);
    let rest = s.skip(from);
    assert(occurs_at(rest, sep, at - from)) by {
        assert(rest.subrange(at - from, at - from + sep.len()) =~= s.subrange(at, at + sep.len()));
    }
    assert forall|j: int| 0 <= j < at - from implies !occurs_at(rest, sep, j) by {
        if occurs_at(rest, sep, j) {
            assert(rest.subrange(j, j + sep.len()) =~= s.subrange(from + j, from + j + sep.len()));
            assert(occurs_at(s, sep, from + j));
        }
    }
    lemma_first_occurrence_is(rest, sep, 0, at - from);
    assert(rest.skip(at - from + sep.len()) =~= s.skip(at + sep.len()));
}

/// `after_last` of a text in which `sep` does not occur from `from` on.
proof fn lemma_after_last_end(s: Seq<char>, sep: Seq<char>, from: int)
    requires
        0 <= from <= s.len(),
        first_occurrence_from(s, sep, from) is None,
    ensures
        after_last(s.skip(from), sep) == s.skip(from),
{
    lemma_first_occurrence_from(s, sep, from);
    let rest = s.skip(from);
    lemma_first_occurrence_from(rest, sep, 0);
    if first_occurrence(rest, sep) is Some {
        let j = first_occurrence(rest, sep).unwrap();
        assert(rest.subrange(j, j + sep.len()) =~= s.subrange(from + j, from + j + sep.len()));
        assert(occurs_at(s, sep, from + j));
    }
}

/// The part of `s` behind the last `sep`.
fn suffix_after(s: &Vec<char>, sep: &Vec<char>) -> (r: Vec<char>)
    requires
        sep.len() > 0,
    ensures
        r@ == after_last(s@, sep@),
{
    let mut from: usize = 0;
    assert(s@.skip(0) =~= s@);
    loop
        invariant
            from <= s.len(),
            sep.len() > 0,
            after_last(s@, sep@) == after_last(s@.skip(from as int), sep@),
        decreases s.len() - from,
    {
        match find_from(s, sep, from) {
            Some(at) => {
                proof {
                    lemma_first_occurrence_from(s@, sep@, from as int);
                    lemma_after_last_step(s@, sep@, from as int, at as int);
                }
                from = at + sep.len();
            },
            None => {
                proof {
                    lemma_after_last_end(s@, sep@, from as int);
                }
                return copy_range(s, from, s.len());
            },
        }
    }
}

/// The container that the mime type `mime` names.
fn container_chars(mime: &Vec<char>) -> (r: Vec<char>)
    ensures
        r@ == container_of(mime@),
{
    let semicolon = chars_of(";");
    let slash = chars_of("/");
    proof {
        reveal_strlit("/");
    }
    let kind = prefix_before(mime, &semicolon);
    proof {
        lemma_first_occurrence_from(kind@, slash@, 0);
    }
    match find(&kind, &slash) {
        Some(i) => {
            assert(occurs_at(kind@, slash@, i as int));
            assert(slash@.len() == 1);
            assert(i + 1 <= kind.len());
            let rest = copy_range(&kind, i + 1, kind.len());
            assert(rest@ == kind@.skip(i + 1));
            prefix_before(&rest, &slash)
        },
        None => Vec::new(),
    }
}

/// `found` as a string where it is not empty, else `kept`.
fn chosen(found: &Vec<char>, kept: Option<String>) -> (r: Option<String>)
    ensures
        r.deep_view() == found_or(found@, kept.deep_view()),
{
    if found.len() > 0 {
        Some(string_of(found))
    } else {
        kept
    }
}

/// Gives `format` the URL `url` and stamps the derived fields on it.
pub fn stamp(format: &mut Format, url: String)
    ensures
        final(format)@ == derived(old(format)@, url@),
{
    let has_video = format.quality_label.is_some();
    let has_audio = format.audio_bitrate.is_some() || format.audio_quality.is_some();
    let mut container: Option<String> = format.container.take();
    let mut codecs: Option<String> = format.codecs.take();
    match &format.mime_type {
        Some(mime) => {
            let mime_chars = chars_of(mime.as_str());
            let found_container = container_chars(&mime_chars);
            container = chosen(&found_container, container);
            let (from, to) = between_range(
                &mime_chars,
                &chars_of(CODECS_LEFT),
                &chars_of(CODECS_RIGHT),
            );
            let found_codecs = copy_range(&mime_chars, from, to);
            codecs = chosen(&found_codecs, codecs);
        },
        None => {},
    }
    let mut video_codec: Option<String> = format.video_codec.take();
    let mut audio_codec: Option<String> = format.audio_codec.take();
    match &codecs {
        Some(list) => {
            let list_chars = chars_of(list.as_str());
            let separator = chars_of(CODEC_SEPARATOR);
            proof {
                reveal_strlit(", ");
            }
            if has_video {
                let first = prefix_before(&list_chars, &separator);
                video_codec = chosen(&first, video_codec);
            }
            if has_audio {
                let last = suffix_after(&list_chars, &separator);
                audio_codec = chosen(&last, audio_codec);
            }
        },
        None => {},
    }
    format.is_live = is_match(LIVE_PATTERN, url.as_str());
    format.is_hls = is_match(HLS_PATTERN, url.as_str());
    format.is_dash_mpd = is_match(DASH_PATTERN, url.as_str());
    format.has_video = has_video;
    format.has_audio = has_audio;
    format.container = container;
    format.codecs = codecs;
    format.video_codec = video_codec;
    format.audio_codec = audio_codec;
    format.url = Some(url);
    format.signature_cipher = None;
    format.cipher = None;
}

/// A copy of a list of strings.
pub fn copy_strings(list: &Vec<String>) -> (r: Vec<String>)
    ensures
        r.deep_view() == list.deep_view(),
{
    let mut r: Vec<String> = Vec::new();
    let mut i: usize = 0;
    while i < list.len()
        invariant
            i <= list.len(),
            r.len() == i,
            forall|j: int| 0 <= j < i ==> r@[j]@ == list@[j]@,
        decreases list.len() - i,
    {
        r.push(list[i].clone());
        i += 1;
    }
    assert(r.deep_view() =~= list.deep_view());
    r
}

/// `g` is `f` normalized with `functions`, for some answers of `invoke`.
pub open spec fn is_normalized<F: Fn(&str, &str, &str) -> Result<String, InvocationError>>(
    invoke: &F,
    f: FormatView,
    functions: Seq<Seq<char>>,
    g: FormatView,
) -> bool {
    exists|signature: Option<Seq<char>>, n: Option<Seq<char>>|
        {
            &&& answers_decipher(invoke, f, functions, signature)
            &&& answers_ncode(invoke, f, functions, signature, n)
            &&& g == #[trigger] normalized(f, functions, signature, n)
        }
}

/// Normalizes `format`: resolves its URL with `functions` and `invoke`, and
/// stamps the derived fields on it.
pub fn normalize_format<F: Fn(&str, &str, &str) -> Result<String, InvocationError>>(
    format: &mut Format,
    functions: &Vec<String>,
    invoke: &F,
)
    requires
        forall|s: &str, e: &str, a: &str| call_requires(invoke, (s, e, a)),
    ensures
        is_normalized(invoke, old(format)@, functions.deep_view(), final(format)@),
{
    let ghost before = format@;
    let url = set_download_url(format, copy_strings(functions), invoke);
    let ghost (signature, n) = choose|signature: Option<Seq<char>>, n: Option<Seq<char>>|
        {
            &&& answers_decipher(invoke, before, functions.deep_view(), signature)
            &&& answers_ncode(invoke, before, functions.deep_view(), signature, n)
            &&& format@ == #[trigger] resolved_format(before, functions.deep_view(), signature, n)
            &&& url@ == resolved_url(before, functions.deep_view(), signature, n)
        };
    stamp(format, url);
    assert(format@ == normalized(before, functions.deep_view(), signature, n));
}

/// The records of the formats that a player response lists under
/// `streamingData`: its `formats`, then its `adaptiveFormats`. `None` where
/// one of the three is missing or one of the two is no array.
pub open spec fn listed_formats(info: Json) -> Option<Seq<Json>> {
    match info.member("streamingData"@) {
        Some(data) => match (data.member("formats"@), data.member("adaptiveFormats"@)) {
            (Some(formats), Some(adaptive)) => match (formats.items(), adaptive.items()) {
                (Some(f), Some(a)) => Some(f + a),
                _ => None,
            },
            _ => None,
        },
        None => None,
    }
}

/// Normalizes the formats of `list` and adds them to `out`.
fn normalize_all<F: Fn(&str, &str, &str) -> Result<String, InvocationError>>(
    list: &Vec<Json>,
    functions: &Vec<String>,
    invoke: &F,
    out: &mut Vec<Format>,
)
    requires
        forall|s: &str, e: &str, a: &str| call_requires(invoke, (s, e, a)),
    ensures
        final(out)@.len() == old(out)@.len() + list@.len(),
        forall|j: int| 0 <= j < old(out)@.len() ==> final(out)@[j] == old(out)@[j],
        forall|j: int|
            0 <= j < list@.len() ==> is_normalized(
                invoke,
                format_of(list@[j]),
                functions.deep_view(),
                #[trigger] final(out)@[old(out)@.len() + j]@,
            ),
{
    let ghost before = out@;
    let mut i: usize = 0;
    while i < list.len()
        invariant
            i <= list.len(),
            before == old(out)@,
            out@.len() == before.len() + i,
            forall|s: &str, e: &str, a: &str| call_requires(invoke, (s, e, a)),
            forall|j: int| 0 <= j < before.len() ==> out@[j] == before[j],
            forall|j: int|
                0 <= j < i ==> is_normalized(
                    invoke,
                    format_of(list@[j]),
                    functions.deep_view(),
                    #[trigger] out@[before.len() + j]@,
                ),
        decreases list.len() - i,
    {
        let mut format = Format::from_json(&list[i]);
        normalize_format(&mut format, functions, invoke);
        out.push(format);
        i += 1;
    }
}

/// The formats of a player response, each normalized: first those with video
/// and audio together, then the others. `None` where the response has no
/// streaming data or lacks one of the two lists.
pub fn parse_video_formats<F: Fn(&str, &str, &str) -> Result<String, InvocationError>>(
    info: &Json,
    format_functions: Vec<String>,
    invoke: &F,
) -> (r: Option<Vec<Format>>)
    requires
        forall|s: &str, e: &str, a: &str| call_requires(invoke, (s, e, a)),
    ensures
        match (r, listed_formats(*info)) {
            (Some(out), Some(listed)) => out.len() == listed.len() && forall|i: int|
                0 <= i < out.len() ==> is_normalized(
                    invoke,
                    format_of(listed[i]),
                    format_functions.deep_view(),
                    #[trigger] out@[i]@,
                ),
            (None, None) => true,
            _ => false,
        },
{
    let data = match info.get("streamingData") {
        Some(data) => data,
        None => {
            return None;
        },
    };
    let formats = match data.get("formats") {
        Some(formats) => match formats.as_array() {
            Some(list) => list,
            None => {
                return None;
            },
        },
        None => {
            return None;
        },
    };
    let adaptive = match data.get("adaptiveFormats") {
        Some(adaptive) => match adaptive.as_array() {
            Some(list) => list,
            None => {
                return None;
            },
        },
        None => {
            return None;
        },
    };
    let mut out: Vec<Format> = Vec::new();
    normalize_all(formats, &format_functions, invoke, &mut out);
    let ghost first = out@;
    normalize_all(adaptive, &format_functions, invoke, &mut out);
    proof {
        let listed = formats@ + adaptive@;
        assert(listed_formats(*info) == Some(listed));
        assert forall|i: int| 0 <= i < out.len() implies is_normalized(
            invoke,
            format_of(listed[i]),
            format_functions.deep_view(),
            #[trigger] out@[i]@,
        ) by {
            if i < formats.len() {
                assert(out@[i] == first[i]);
                assert(first[0 + i] == first[i]);
            } else {
                assert(out@[first.len() + (i - formats.len())] == out@[i]);
            }
        }
    }
    Some(out)
}

} // verus!
