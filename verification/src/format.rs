//! Stream formats and the options by which one of them is chosen.

use vstd::prelude::*;
use crate::json::{members_view, Json, JsonView};
use crate::query::same_text;

verus! {

/// One stream variant of a video. The first group of fields is what the
/// platform delivers, the second what normalizing derives from it, and
/// `extras` holds every other field of the record, name and value, untouched.
#[derive(Debug, PartialEq, Eq)]
pub struct Format {
    /// The playable URL, where the record gives it in plain.
    pub url: Option<String>,
    /// The cipher query string, under its newer name.
    pub signature_cipher: Option<String>,
    /// The cipher query string, under its older name.
    pub cipher: Option<String>,
    /// The quality label, such as `720p`; only video streams have one.
    pub quality_label: Option<String>,
    /// The mime type, with the codecs.
    pub mime_type: Option<String>,
    /// The bitrate.
    pub bitrate: Option<i64>,
    /// The audio bitrate; only audio streams have one.
    pub audio_bitrate: Option<i64>,
    /// The audio quality; only audio streams have one.
    pub audio_quality: Option<String>,
    /// The length of the content in bytes, as the record gives it: a number,
    /// or a string that writes one.
    pub content_length: Option<Json>,
    /// The stream carries video.
    pub has_video: bool,
    /// The stream carries audio.
    pub has_audio: bool,
    /// The container, such as `mp4`.
    pub container: Option<String>,
    /// The codecs, as the mime type lists them.
    pub codecs: Option<String>,
    /// The video codec.
    pub video_codec: Option<String>,
    /// The audio codec.
    pub audio_codec: Option<String>,
    /// The URL is that of a live broadcast.
    pub is_live: bool,
    /// The URL is that of an HLS manifest.
    pub is_hls: bool,
    /// The URL is that of a DASH manifest.
    pub is_dash_mpd: bool,
    /// The other fields of the record.
    pub extras: Vec<(String, Json)>,
}

/// A `Format` as a mathematical value.
pub ghost struct FormatView {
    pub url: Option<Seq<char>>,
    pub signature_cipher: Option<Seq<char>>,
    pub cipher: Option<Seq<char>>,
    pub quality_label: Option<Seq<char>>,
    pub mime_type: Option<Seq<char>>,
    pub bitrate: Option<int>,
    pub audio_bitrate: Option<int>,
    pub audio_quality: Option<Seq<char>>,
    pub content_length: Option<JsonView>,
    pub has_video: bool,
    pub has_audio: bool,
    pub container: Option<Seq<char>>,
    pub codecs: Option<Seq<char>>,
    pub video_codec: Option<Seq<char>>,
    pub audio_codec: Option<Seq<char>>,
    pub is_live: bool,
    pub is_hls: bool,
    pub is_dash_mpd: bool,
    pub extras: Seq<(Seq<char>, JsonView)>,
}

/// The text of an optional string.
pub open spec fn text_view(s: Option<String>) -> Option<Seq<char>> {
    match s {
        Some(t) => Some(t@),
        None => None,
    }
}

/// The value of an optional number.
pub open spec fn number_view(n: Option<i64>) -> Option<int> {
    match n {
        Some(v) => Some(v as int),
        None => None,
    }
}

impl View for Format {
    type V = FormatView;

    open spec fn view(&self) -> FormatView {
        FormatView {
            url: text_view(self.url),
            signature_cipher: text_view(self.signature_cipher),
            cipher: text_view(self.cipher),
            quality_label: text_view(self.quality_label),
            mime_type: text_view(self.mime_type),
            bitrate: number_view(self.bitrate),
            audio_bitrate: number_view(self.audio_bitrate),
            audio_quality: text_view(self.audio_quality),
            content_length: value_view(self.content_length),
            has_video: self.has_video,
            has_audio: self.has_audio,
            container: text_view(self.container),
            codecs: text_view(self.codecs),
            video_codec: text_view(self.video_codec),
            audio_codec: text_view(self.audio_codec),
            is_live: self.is_live,
            is_hls: self.is_hls,
            is_dash_mpd: self.is_dash_mpd,
            extras: members_view(self.extras@),
        }
    }
}

/// The view of an optional value.
pub open spec fn value_view(v: Option<Json>) -> Option<JsonView> {
    match v {
        Some(j) => Some(j@),
        None => None,
    }
}

/// A copy of an optional value.
pub fn copy_value(v: &Option<Json>) -> (r: Option<Json>)
    ensures
        value_view(r) == value_view(*v),
{
    match v {
        Some(j) => Some(j.clone()),
        None => None,
    }
}

/// A copy of an optional string.
pub fn copy_text(s: &Option<String>) -> (r: Option<String>)
    ensures
        text_view(r) == text_view(*s),
{
    match s {
        Some(t) => Some(t.clone()),
        None => None,
    }
}

/// A copy of the members of an object.
pub fn copy_members(members: &Vec<(String, Json)>) -> (r: Vec<(String, Json)>)
    ensures
        members_view(r@) == members_view(members@),
{
    let mut r: Vec<(String, Json)> = Vec::new();
    let mut i: usize = 0;
    while i < members.len()
        invariant
            i <= members.len(),
            r.len() == i,
            forall|j: int|
                0 <= j < i ==> r@[j].0@ == members@[j].0@ && r@[j].1@ == members@[j].1@,
        decreases members.len() - i,
    {
        r.push((members[i].0.clone(), members[i].1.clone()));
        i += 1;
    }
    assert(members_view(r@) =~= members_view(members@));
    r
}

impl Clone for Format {
    fn clone(&self) -> (r: Self)
        ensures
            r@ == self@,
    {
        Format {
            url: copy_text(&self.url),
            signature_cipher: copy_text(&self.signature_cipher),
            cipher: copy_text(&self.cipher),
            quality_label: copy_text(&self.quality_label),
            mime_type: copy_text(&self.mime_type),
            bitrate: self.bitrate,
            audio_bitrate: self.audio_bitrate,
            audio_quality: copy_text(&self.audio_quality),
            content_length: copy_value(&self.content_length),
            has_video: self.has_video,
            has_audio: self.has_audio,
            container: copy_text(&self.container),
            codecs: copy_text(&self.codecs),
            video_codec: copy_text(&self.video_codec),
            audio_codec: copy_text(&self.audio_codec),
            is_live: self.is_live,
            is_hls: self.is_hls,
            is_dash_mpd: self.is_dash_mpd,
            extras: copy_members(&self.extras),
        }
    }
}

impl Default for Format {
    fn default() -> (r: Self)
        ensures
            r@ == empty_format(),
    {
        let r = Format {
            url: None,
            signature_cipher: None,
            cipher: None,
            quality_label: None,
            mime_type: None,
            bitrate: None,
            audio_bitrate: None,
            audio_quality: None,
            content_length: None,
            has_video: false,
            has_audio: false,
            container: None,
            codecs: None,
            video_codec: None,
            audio_codec: None,
            is_live: false,
            is_hls: false,
            is_dash_mpd: false,
            extras: Vec::new(),
        };
        assert(members_view(r.extras@) =~= Seq::empty());
        r
    }
}

/// The format without any field.
pub open spec fn empty_format() -> FormatView {
    FormatView {
        url: None,
        signature_cipher: None,
        cipher: None,
        quality_label: None,
        mime_type: None,
        bitrate: None,
        audio_bitrate: None,
        audio_quality: None,
        content_length: None,
        has_video: false,
        has_audio: false,
        container: None,
        codecs: None,
        video_codec: None,
        audio_codec: None,
        is_live: false,
        is_hls: false,
        is_dash_mpd: false,
        extras: Seq::empty(),
    }
}

/// Whether a record's field of this name is one that `Format` holds in a
/// field of its own.
pub open spec fn known_field(name: Seq<char>) -> bool {
    ||| name == "url"@
    ||| name == "signatureCipher"@
    ||| name == "cipher"@
    ||| name == "qualityLabel"@
    ||| name == "mimeType"@
    ||| name == "bitrate"@
    ||| name == "audioBitrate"@
    ||| name == "audioQuality"@
    ||| name == "contentLength"@
    ||| name == "hasVideo"@
    ||| name == "hasAudio"@
    ||| name == "container"@
    ||| name == "codecs"@
    ||| name == "videoCodec"@
    ||| name == "audioCodec"@
    ||| name == "isLive"@
    ||| name == "isHLS"@
    ||| name == "isDashMPD"@
}

/// Whether the value `value` of a member named `name` is one that the field
/// of that name can hold: a string for a text field, an integer for a
/// bitrate, `true` for a flag, anything for the content length.
pub open spec fn fits(name: Seq<char>, value: Json) -> bool {
    if name == "contentLength"@ {
        true
    } else if name == "bitrate"@ || name == "audioBitrate"@ {
        value is Integer
    } else if name == "hasVideo"@ || name == "hasAudio"@ || name == "isLive"@ || name == "isHLS"@
        || name == "isDashMPD"@ {
        value.boolean() == Some(true)
    } else {
        value is Text
    }
}

/// Whether a member of a record is held by a field of `Format`: its name is
/// that of a field, and its value is one that the field can hold.
pub open spec fn is_held(m: (String, Json)) -> bool {
    known_field(m.0@) && fits(m.0@, m.1)
}

/// The text of the member `name`, where the record has it and it holds a
/// string.
pub open spec fn field_text(j: Json, name: Seq<char>) -> Option<Seq<char>> {
    match j.member(name) {
        Some(value) => value.text(),
        None => None,
    }
}

/// The integer that the member `name` holds.
pub open spec fn field_integer(j: Json, name: Seq<char>) -> Option<int> {
    match j.member(name) {
        Some(value) => value.integer(),
        None => None,
    }
}

/// Whether the member `name` holds `true`.
pub open spec fn field_flag(j: Json, name: Seq<char>) -> bool {
    match j.member(name) {
        Some(value) => value.boolean() == Some(true),
        None => false,
    }
}

/// The members of a record that no field of `Format` holds: those of other
/// names, and those whose value the field of their name cannot hold. They
/// pass through as they are.
pub open spec fn other_fields(members: Seq<(String, Json)>) -> Seq<(String, Json)> {
    members.filter(|m: (String, Json)| !is_held(m))
}

/// The format that a record describes. Each field holds the value of the
/// member of its name, where the record has that member and the field can
/// hold its value; of two members of one name the first counts. Every member
/// that no field holds is among the extras, unchanged: nothing of the record
/// is rewritten. A value that is no object describes the format without any
/// field.
pub open spec fn format_of(j: Json) -> FormatView {
    FormatView {
        url: field_text(j, "url"@),
        signature_cipher: field_text(j, "signatureCipher"@),
        cipher: field_text(j, "cipher"@),
        quality_label: field_text(j, "qualityLabel"@),
        mime_type: field_text(j, "mimeType"@),
        bitrate: field_integer(j, "bitrate"@),
        audio_bitrate: field_integer(j, "audioBitrate"@),
        audio_quality: field_text(j, "audioQuality"@),
        content_length: value_view(j.member("contentLength"@)),
        has_video: field_flag(j, "hasVideo"@),
        has_audio: field_flag(j, "hasAudio"@),
        container: field_text(j, "container"@),
        codecs: field_text(j, "codecs"@),
        video_codec: field_text(j, "videoCodec"@),
        audio_codec: field_text(j, "audioCodec"@),
        is_live: field_flag(j, "isLive"@),
        is_hls: field_flag(j, "isHLS"@),
        is_dash_mpd: field_flag(j, "isDashMPD"@),
        extras: members_view(other_fields(j.members())),
    }
}

/// The text of the member `name` of `j`, where it holds a string.
fn text_field(j: &Json, name: &str) -> (r: Option<String>)
    ensures
        text_view(r) == field_text(*j, name@),
{
    match j.get(name) {
        Some(value) => match value.as_str() {
            Some(t) => Some(String::from_str(t)),
            None => None,
        },
        None => None,
    }
}

/// The integer that the member `name` of `j` holds.
fn integer_field(j: &Json, name: &str) -> (r: Option<i64>)
    ensures
        number_view(r) == field_integer(*j, name@),
{
    match j.get(name) {
        Some(value) => value.as_i64(),
        None => None,
    }
}

/// Whether the member `name` of `j` holds `true`.
fn flag_field(j: &Json, name: &str) -> (r: bool)
    ensures
        r == field_flag(*j, name@),
{
    match j.get(name) {
        Some(value) => match value.as_bool() {
            Some(b) => b,
            None => false,
        },
        None => false,
    }
}

/// Whether `name` is the name of a field that `Format` holds in a field of
/// its own.
pub fn is_known_field(name: &str) -> (r: bool)
    ensures
        r == known_field(name@),
{
    same_text(name, "url") || same_text(name, "signatureCipher") || same_text(name, "cipher")
        || same_text(name, "qualityLabel") || same_text(name, "mimeType") || same_text(
        name,
        "bitrate",
    ) || same_text(name, "audioBitrate") || same_text(name, "audioQuality") || same_text(
        name,
        "contentLength",
    ) || same_text(name, "hasVideo") || same_text(name, "hasAudio") || same_text(
        name,
        "container",
    ) || same_text(name, "codecs") || same_text(name, "videoCodec") || same_text(
        name,
        "audioCodec",
    ) || same_text(name, "isLive") || same_text(name, "isHLS") || same_text(name, "isDashMPD")
}

/// Whether the field named `name` can hold `value`.
pub fn value_fits(name: &str, value: &Json) -> (r: bool)
    ensures
        r == fits(name@, *value),
{
    if same_text(name, "contentLength") {
        true
    } else if same_text(name, "bitrate") || same_text(name, "audioBitrate") {
        value.as_i64().is_some()
    } else if same_text(name, "hasVideo") || same_text(name, "hasAudio") || same_text(
        name,
        "isLive",
    ) || same_text(name, "isHLS") || same_text(name, "isDashMPD") {
        match value.as_bool() {
            Some(b) => b,
            None => false,
        }
    } else {
        value.is_string()
    }
}

/// The members of `j` that no field of `Format` holds.
fn extras_of(j: &Json) -> (r: Vec<(String, Json)>)
    ensures
        members_view(r@) == members_view(other_fields(j.members())),
{
    let ghost keep = |m: (String, Json)| !is_held(m);
    let mut r: Vec<(String, Json)> = Vec::new();
    proof {
        reveal(Seq::filter);
    }
    match j {
        Json::Object(members) => {
            let mut i: usize = 0;
            assert(members@.take(0).filter(keep) =~= Seq::<(String, Json)>::empty());
            assert(members_view(r@) =~= members_view(members@.take(0).filter(keep)));
            while i < members.len()
                invariant
                    i <= members.len(),
                    keep == |m: (String, Json)| !is_held(m),
                    members_view(r@) == members_view(members@.take(i as int).filter(keep)),
                decreases members.len() - i,
            {
                proof {
                    members@.take(i as int).lemma_filter_push(members@[i as int], keep);
                    assert(members@.take(i as int).push(members@[i as int]) =~= members@.take(
                        i + 1,
                    ));
                }
                let ghost before = r@;
                let ghost kept = members@.take(i as int).filter(keep);
                let held = is_known_field(members[i].0.as_str()) && value_fits(
                    members[i].0.as_str(),
                    &members[i].1,
                );
                if !held {
                    r.push((members[i].0.clone(), members[i].1.clone()));
                    assert(members_view(r@) =~= members_view(before).push(
                        (members@[i as int].0@, members@[i as int].1@),
                    ));
                    assert(members_view(kept.push(members@[i as int])) =~= members_view(kept).push(
                        (members@[i as int].0@, members@[i as int].1@),
                    ));
                }
                i += 1;
            }
            assert(members@.take(members.len() as int) =~= members@);
            r
        },
        _ => {
            assert(Seq::<(String, Json)>::empty().filter(keep) =~= Seq::<(String, Json)>::empty());
            assert(members_view(r@) =~= members_view(other_fields(j.members())));
            r
        },
    }
}

/// The name is that of one of the two cipher fields.
pub open spec fn is_cipher_name(name: Seq<char>) -> bool {
    name == "cipher"@ || name == "signatureCipher"@
}

/// `extras` without the members that are named like a cipher field.
pub open spec fn without_cipher(extras: Seq<(Seq<char>, JsonView)>) -> Seq<(Seq<char>, JsonView)> {
    extras.filter(|m: (Seq<char>, JsonView)| !is_cipher_name(m.0))
}

/// `extras` without the members that are named like a cipher field.
pub fn extras_without_cipher(extras: &Vec<(String, Json)>) -> (r: Vec<(String, Json)>)
    ensures
        members_view(r@) == without_cipher(members_view(extras@)),
{
    let ghost keep = |m: (Seq<char>, JsonView)| !is_cipher_name(m.0);
    let ghost all = members_view(extras@);
    let mut r: Vec<(String, Json)> = Vec::new();
    let mut i: usize = 0;
    proof {
        reveal(Seq::filter);
        assert(all.take(0).filter(keep) =~= Seq::<(Seq<char>, JsonView)>::empty());
        assert(members_view(r@) =~= all.take(0).filter(keep));
    }
    while i < extras.len()
        invariant
            i <= extras.len(),
            all == members_view(extras@),
            keep == |m: (Seq<char>, JsonView)| !is_cipher_name(m.0),
            members_view(r@) == all.take(i as int).filter(keep),
        decreases extras.len() - i,
    {
        proof {
            all.take(i as int).lemma_filter_push(all[i as int], keep);
            assert(all.take(i as int).push(all[i as int]) =~= all.take(i + 1));
        }
        let ghost before = members_view(r@);
        let name = extras[i].0.as_str();
        if !(same_text(name, "cipher") || same_text(name, "signatureCipher")) {
            r.push((extras[i].0.clone(), extras[i].1.clone()));
            assert(members_view(r@) =~= before.push(all[i as int]));
        }
        i += 1;
    }
    assert(all.take(extras.len() as int) =~= all);
    r
}

/// The member `name` with the text `value`, where there is a text.
pub open spec fn text_member(name: Seq<char>, value: Option<Seq<char>>) -> Seq<
    (Seq<char>, JsonView),
> {
    match value {
        Some(t) => seq![(name, JsonView::Text(t))],
        None => Seq::empty(),
    }
}

/// The member `name` with the integer `value`, where there is an integer.
pub open spec fn integer_member(name: Seq<char>, value: Option<int>) -> Seq<
    (Seq<char>, JsonView),
> {
    match value {
        Some(n) => seq![(name, JsonView::Integer(n))],
        None => Seq::empty(),
    }
}

/// The member `name` with the value `value`, where there is a value.
pub open spec fn value_member(name: Seq<char>, value: Option<JsonView>) -> Seq<
    (Seq<char>, JsonView),
> {
    match value {
        Some(v) => seq![(name, v)],
        None => Seq::empty(),
    }
}

/// The member `name` with the value `true`, where the flag is set.
pub open spec fn flag_member(name: Seq<char>, value: bool) -> Seq<(Seq<char>, JsonView)> {
    if value {
        seq![(name, JsonView::Bool(true))]
    } else {
        Seq::empty()
    }
}

/// `start`, then the members of a record for the fields that the platform
/// delivers.
pub open spec fn with_delivered(start: Seq<(Seq<char>, JsonView)>, f: FormatView) -> Seq<
    (Seq<char>, JsonView),
> {
    start + text_member("url"@, f.url) + text_member("signatureCipher"@, f.signature_cipher)
        + text_member("cipher"@, f.cipher) + text_member("qualityLabel"@, f.quality_label)
        + text_member("mimeType"@, f.mime_type) + integer_member("bitrate"@, f.bitrate)
        + integer_member("audioBitrate"@, f.audio_bitrate) + text_member(
        "audioQuality"@,
        f.audio_quality,
    ) + value_member("contentLength"@, f.content_length)
}

/// `start`, then the members of a record for the fields that normalizing
/// derives.
pub open spec fn with_derived(start: Seq<(Seq<char>, JsonView)>, f: FormatView) -> Seq<
    (Seq<char>, JsonView),
> {
    start + flag_member("hasVideo"@, f.has_video) + flag_member("hasAudio"@, f.has_audio) + text_member(
        "container"@,
        f.container,
    ) + text_member("codecs"@, f.codecs) + text_member("videoCodec"@, f.video_codec)
        + text_member("audioCodec"@, f.audio_codec) + flag_member("isLive"@, f.is_live)
        + flag_member("isHLS"@, f.is_hls) + flag_member("isDashMPD"@, f.is_dash_mpd)
}

/// The members of the record that describes a format: a member for each
/// field that holds a value and for each flag that is set, then the extras.
pub open spec fn record_members(f: FormatView) -> Seq<(Seq<char>, JsonView)> {
    with_derived(with_delivered(Seq::empty(), f), f) + f.extras
}

/// Adds the member `name` with the text `value` to `members`, where there is
/// a text.
fn push_text(members: &mut Vec<(String, Json)>, name: &str, value: &Option<String>)
    ensures
        members_view(final(members)@) == members_view(old(members)@) + text_member(
            name@,
            text_view(*value),
        ),
{
    match value {
        Some(t) => {
            members.push((String::from_str(name), Json::Text(t.clone())));
        },
        None => {},
    }
    assert(members_view(members@) =~= members_view(old(members)@) + text_member(
        name@,
        text_view(*value),
    ));
}

/// Adds the member `name` with the integer `value` to `members`, where there
/// is an integer.
fn push_integer(members: &mut Vec<(String, Json)>, name: &str, value: Option<i64>)
    ensures
        members_view(final(members)@) == members_view(old(members)@) + integer_member(
            name@,
            number_view(value),
        ),
{
    match value {
        Some(n) => {
            members.push((String::from_str(name), Json::Integer(n)));
        },
        None => {},
    }
    assert(members_view(members@) =~= members_view(old(members)@) + integer_member(
        name@,
        number_view(value),
    ));
}

/// Adds the member `name` with the value `value` to `members`, where there is
/// a value.
fn push_value(members: &mut Vec<(String, Json)>, name: &str, value: &Option<Json>)
    ensures
        members_view(final(members)@) == members_view(old(members)@) + value_member(
            name@,
            value_view(*value),
        ),
{
    match value {
        Some(v) => {
            members.push((String::from_str(name), v.clone()));
        },
        None => {},
    }
    assert(members_view(members@) =~= members_view(old(members)@) + value_member(
        name@,
        value_view(*value),
    ));
}

/// Adds the member `name` with the value `true` to `members`, where the flag
/// is set.
fn push_flag(members: &mut Vec<(String, Json)>, name: &str, value: bool)
    ensures
        members_view(final(members)@) == members_view(old(members)@) + flag_member(name@, value),
{
    if value {
        members.push((String::from_str(name), Json::Bool(true)));
    }
    assert(members_view(members@) =~= members_view(old(members)@) + flag_member(name@, value));
}

/// Adds the members for the fields that the platform delivers.
fn push_delivered(members: &mut Vec<(String, Json)>, f: &Format)
    ensures
        members_view(final(members)@) == with_delivered(members_view(old(members)@), f@),
{
    push_text(members, "url", &f.url);
    push_text(members, "signatureCipher", &f.signature_cipher);
    push_text(members, "cipher", &f.cipher);
    push_text(members, "qualityLabel", &f.quality_label);
    push_text(members, "mimeType", &f.mime_type);
    push_integer(members, "bitrate", f.bitrate);
    push_integer(members, "audioBitrate", f.audio_bitrate);
    push_text(members, "audioQuality", &f.audio_quality);
    push_value(members, "contentLength", &f.content_length);
}

/// Adds the members for the fields that normalizing derives.
fn push_derived(members: &mut Vec<(String, Json)>, f: &Format)
    ensures
        members_view(final(members)@) == with_derived(members_view(old(members)@), f@),
{
    push_flag(members, "hasVideo", f.has_video);
    push_flag(members, "hasAudio", f.has_audio);
    push_text(members, "container", &f.container);
    push_text(members, "codecs", &f.codecs);
    push_text(members, "videoCodec", &f.video_codec);
    push_text(members, "audioCodec", &f.audio_codec);
    push_flag(members, "isLive", f.is_live);
    push_flag(members, "isHLS", f.is_hls);
    push_flag(members, "isDashMPD", f.is_dash_mpd);
}

impl Format {
    /// The record that describes the format: an object with a member for each
    /// field that holds a value and for each flag that is set, then the
    /// extras. A member that `from_json` let pass stands there as it was.
    pub fn to_json(&self) -> (r: Json)
        ensures
            r is Object,
            members_view(r.members()) == record_members(self@),
    {
        let mut members: Vec<(String, Json)> = Vec::new();
        assert(members_view(members@) =~= Seq::empty());
        push_delivered(&mut members, self);
        push_derived(&mut members, self);
        let ghost known = members_view(members@);
        let mut i: usize = 0;
        while i < self.extras.len()
            invariant
                i <= self.extras.len(),
                members@.len() == known.len() + i,
                members_view(members@) == known + members_view(self.extras@).take(i as int),
            decreases self.extras.len() - i,
        {
            let ghost before = members_view(members@);
            members.push((self.extras[i].0.clone(), self.extras[i].1.clone()));
            assert(members_view(members@) =~= before.push(
                (self.extras@[i as int].0@, self.extras@[i as int].1@),
            ));
            i += 1;
            assert(members_view(self.extras@).take(i as int) =~= members_view(self.extras@).take(
                i - 1,
            ).push((self.extras@[i - 1].0@, self.extras@[i - 1].1@)));
        }
        assert(members_view(self.extras@).take(self.extras.len() as int) =~= members_view(
            self.extras@,
        ));
        Json::Object(members)
    }

    /// The format that the record `j` describes.
    pub fn from_json(j: &Json) -> (r: Format)
        ensures
            r@ == format_of(*j),
    {
        Format {
            url: text_field(j, "url"),
            signature_cipher: text_field(j, "signatureCipher"),
            cipher: text_field(j, "cipher"),
            quality_label: text_field(j, "qualityLabel"),
            mime_type: text_field(j, "mimeType"),
            bitrate: integer_field(j, "bitrate"),
            audio_bitrate: integer_field(j, "audioBitrate"),
            audio_quality: text_field(j, "audioQuality"),
            content_length: match j.get("contentLength") {
                Some(value) => Some(value.clone()),
                None => None,
            },
            has_video: flag_field(j, "hasVideo"),
            has_audio: flag_field(j, "hasAudio"),
            container: text_field(j, "container"),
            codecs: text_field(j, "codecs"),
            video_codec: text_field(j, "videoCodec"),
            audio_codec: text_field(j, "audioCodec"),
            is_live: flag_field(j, "isLive"),
            is_hls: flag_field(j, "isHLS"),
            is_dash_mpd: flag_field(j, "isDashMPD"),
            extras: extras_of(j),
        }
    }
}

/// Which streams a caller wants.
#[derive(Clone, Copy, PartialEq, Eq, Structural, Debug)]
pub enum VideoSearchOptions {
    /// Streams with both video and audio.
    VideoAudio,
    /// Streams with video and no audio.
    Video,
    /// Streams with audio and no video.
    Audio,
}

/// Which end of the ranking a caller wants.
#[derive(Clone, Copy, PartialEq, Eq, Structural, Debug)]
pub enum VideoQuality {
    /// The best stream.
    Highest,
    /// The worst stream.
    Lowest,
}

/// How one of a video's formats is chosen.
#[derive(Clone, Copy, PartialEq, Eq, Structural, Debug)]
pub struct VideoOptions {
    /// Which end of the ranking is wanted.
    pub quality: VideoQuality,
    /// Which streams are wanted.
    pub filter: VideoSearchOptions,
}

impl Default for VideoOptions {
    fn default() -> (r: Self)
        ensures
            r == (VideoOptions { quality: VideoQuality::Highest, filter: VideoSearchOptions::VideoAudio }),
    {
        VideoOptions { quality: VideoQuality::Highest, filter: VideoSearchOptions::VideoAudio }
    }
}

} // verus!
