//! The id of a video, read from an id or from a URL.

use vstd::prelude::*;
use crate::pattern::{is_match, matches_pattern};
use crate::query::{same_text, url_host, url_host_of, url_pairs, url_query_pairs};
use crate::text::{
    chars_of, copy_range, find_from, first_occurrence_from, lemma_first_occurrence_from,
    string_of, string_of_range,
};

verus! {

/// The expression that the id of a video matches.
pub const ID_PATTERN: &'static str = r"^[a-zA-Z0-9-_]{11}$";

/// The expression that the start of a web address matches.
pub const SCHEME_PATTERN: &'static str = r"^https?://";

/// The expression that an address matches whose path names the video.
pub const PATH_DOMAINS_PATTERN: &'static str =
    r"^https?:\\//\\//(youtu\.be\\//|(www\.)?youtube\.com\\//(embed|v|shorts)\\//)";

/// The host whose addresses name the video first in the path.
pub const SHORT_HOST: &'static str = "youtu.be";

/// How many characters the id of a video has.
pub const ID_LENGTH: usize = 11;

/// The hosts whose addresses may name the video in the query.
pub open spec fn valid_query_domains() -> Seq<Seq<char>> {
    seq![
        "youtube.com"@,
        "www.youtube.com"@,
        "m.youtube.com"@,
        "music.youtube.com"@,
        "gaming.youtube.com"@,
    ]
}

/// Whether `c` is white space, as `char::is_whitespace` tells.
pub uninterp spec fn white_space(c: char) -> bool;

/// Asks `char::is_whitespace` whether `c` is white space. The contract gives
/// the answer its name, `white_space`, and claims no more.
#[verifier::external_body]
pub(crate) fn is_white_space(c: char) -> (r: bool)
    ensures
        r == white_space(c),
{
    c.is_whitespace()
}

/// The place of the first character of `s`, at or after `from`, that is no
/// white space; the length of `s` where there is none.
pub open spec fn first_text(s: Seq<char>, from: int) -> int
    decreases s.len() - from,
{
    if from < 0 || from >= s.len() {
        s.len() as int
    } else if !white_space(s[from]) {
        from
    } else {
        first_text(s, from + 1)
    }
}

/// The place behind the last character of `s`, before `upto`, that is no
/// white space; 0 where there is none.
pub open spec fn last_text(s: Seq<char>, upto: int) -> int
    decreases upto,
{
    if upto <= 0 || upto > s.len() {
        0
    } else if !white_space(s[upto - 1]) {
        upto
    } else {
        last_text(s, upto - 1)
    }
}

/// A text without the white space at its start and at its end: what stands
/// from its first character that is no white space to its last one. Nothing
/// where it is all white space.
pub open spec fn trimmed(text: Seq<char>) -> Seq<char> {
    if first_text(text, 0) < last_text(text, text.len() as int) {
        text.subrange(first_text(text, 0), last_text(text, text.len() as int))
    } else {
        Seq::empty()
    }
}

/// `text` without the white space at its start and at its end.
pub fn trim(text: &str) -> (r: &str)
    ensures
        r@ == trimmed(text@),
{
    let chars = chars_of(text);
    let mut start: usize = 0;
    while start < chars.len() && is_white_space(chars[start])
        invariant
            start <= chars.len(),
            first_text(chars@, 0) == first_text(chars@, start as int),
        decreases chars.len() - start,
    {
        start += 1;
    }
    let mut end: usize = chars.len();
    while end > 0 && is_white_space(chars[end - 1])
        invariant
            end <= chars.len(),
            last_text(chars@, chars.len() as int) == last_text(chars@, end as int),
        decreases end,
    {
        end -= 1;
    }
    if start < end {
        text.substring_char(start, end)
    } else {
        let r = text.substring_char(0, 0);
        assert(r@ =~= Seq::<char>::empty());
        r
    }
}

/// Whether `id`, without the white space around it, is the id of a video:
/// eleven letters, digits, hyphens or underscores.
pub open spec fn valid_id(id: Seq<char>) -> bool {
    matches_pattern(ID_PATTERN@, trimmed(id))
}

/// Whether `id`, without the white space around it, is the id of a video.
pub fn validate_id(id: String) -> (r: bool)
    ensures
        r == valid_id(id@),
{
    is_match(ID_PATTERN, trim(id.as_str()))
}

/// The value of the last of `pairs` that is named `name`, among the first
/// `upto` of them.
pub open spec fn last_value(pairs: Seq<(Seq<char>, Seq<char>)>, name: Seq<char>, upto: int) -> Option<
    Seq<char>,
>
    decreases upto,
{
    if upto <= 0 || upto > pairs.len() {
        None
    } else if pairs[upto - 1].0 == name {
        Some(pairs[upto - 1].1)
    } else {
        last_value(pairs, name, upto - 1)
    }
}

/// The piece at place `k` of `s` when it is split at every `sep`, from
/// position `from` on; empty where there are fewer pieces.
pub open spec fn piece_from(s: Seq<char>, sep: Seq<char>, k: nat, from: int) -> Seq<char>
    decreases k,
{
    match first_occurrence_from(s, sep, from) {
        Some(i) => if k == 0 {
            s.subrange(from, i)
        } else {
            piece_from(s, sep, (k - 1) as nat, i + sep.len())
        },
        None => if k == 0 && 0 <= from <= s.len() {
            s.skip(from)
        } else {
            Seq::empty()
        },
    }
}

/// One of `list` is `text`.
pub open spec fn lists(list: Seq<Seq<char>>, text: Seq<char>) -> bool {
    exists|i: int| 0 <= i < list.len() && #[trigger] list[i] == text
}

/// The first `n` characters of `s`, or all of it where it is shorter.
pub open spec fn first_chars(s: Seq<char>, n: int) -> Seq<char> {
    if s.len() <= n {
        s
    } else {
        s.take(n)
    }
}

/// The text in which the id of a video is looked for, given the pairs of the
/// query of its address, the host of the address, and whether the path of the
/// address names the video. It is the value of the last `v` of the query.
/// Without one, an address whose path names the video gives the piece of its
/// host behind the first slash, for the short host, or behind the second.
/// `None` where there is no such text, and where the text comes from the
/// query of an address whose host is none of those that name videos so.
pub open spec fn id_source_of(
    pairs: Seq<(Seq<char>, Seq<char>)>,
    host: Option<Seq<char>>,
    path_names_video: bool,
) -> Option<Seq<char>> {
    let named = last_value(pairs, "v"@, pairs.len() as int);
    let host_text = match host {
        Some(h) => h,
        None => Seq::empty(),
    };
    if path_names_video && named is None {
        Some(
            piece_from(
                host_text,
                "/"@,
                if host_text == SHORT_HOST@ {
                    1
                } else {
                    2
                },
                0,
            ),
        )
    } else if host is Some && !lists(valid_query_domains(), host_text) {
        None
    } else {
        named
    }
}

/// The text in which the id of the video at the address `url` is looked for:
/// what `id_source_of` gives for the address without the white space around
/// it. `None` also where the address does not parse.
pub open spec fn id_source(url: Seq<char>) -> Option<Seq<char>> {
    let t = trimmed(url);
    match (url_query_pairs(t), url_host(t)) {
        (Some(pairs), Some(host)) => id_source_of(
            pairs,
            host,
            matches_pattern(PATH_DOMAINS_PATTERN@, t),
        ),
        _ => None,
    }
}

/// The id of the video at the address `url`: the first eleven characters of
/// the text that `id_source` gives, where they are the id of a video.
pub open spec fn url_video_id(url: Seq<char>) -> Option<Seq<char>> {
    match id_source(url) {
        Some(source) => if valid_id(first_chars(source, ID_LENGTH as int)) {
            Some(first_chars(source, ID_LENGTH as int))
        } else {
            None
        },
        None => None,
    }
}

/// The id of the video that `url` names: `url` itself where it is the id of a
/// video; else, for a web address, the id that the address gives.
pub open spec fn video_id(url: Seq<char>) -> Option<Seq<char>> {
    if valid_id(url) {
        Some(url)
    } else if matches_pattern(SCHEME_PATTERN@, trimmed(url)) {
        url_video_id(url)
    } else {
        None
    }
}

/// The hosts whose addresses may name the video in the query.
pub fn valid_query_domain_list() -> (r: Vec<&'static str>)
    ensures
        r.deep_view() == valid_query_domains(),
        r.len() == 5,
{
    let r = vec![
        "youtube.com",
        "www.youtube.com",
        "m.youtube.com",
        "music.youtube.com",
        "gaming.youtube.com",
    ];
    assert(r.deep_view() =~= valid_query_domains());
    r
}

/// Whether one of `list` is `text`.
fn is_listed(list: &Vec<&'static str>, text: &str) -> (r: bool)
    ensures
        r == lists(list.deep_view(), text@),
{
    let mut i: usize = 0;
    while i < list.len()
        invariant
            i <= list.len(),
            forall|j: int| 0 <= j < i ==> #[trigger] list.deep_view()[j] != text@,
        decreases list.len() - i,
    {
        if same_text(list[i], text) {
            assert(list.deep_view()[i as int] == text@);
            return true;
        }
        i += 1;
    }
    false
}

/// The value of the last of `pairs` that is named `name`.
fn last_named(pairs: &Vec<(String, String)>, name: &str) -> (r: Option<String>)
    ensures
        r.deep_view() == last_value(pairs.deep_view(), name@, pairs.len() as int),
{
    let mut i: usize = pairs.len();
    while i > 0
        invariant
            i <= pairs.len(),
            last_value(pairs.deep_view(), name@, pairs.len() as int) == last_value(
                pairs.deep_view(),
                name@,
                i as int,
            ),
        decreases i,
    {
        if same_text(pairs[i - 1].0.as_str(), name) {
            return Some(pairs[i - 1].1.clone());
        }
        i -= 1;
    }
    None
}

/// The piece at place `k` of `s` when it is split at every `sep`.
fn piece(s: &Vec<char>, sep: &Vec<char>, k: usize) -> (r: Vec<char>)
    ensures
        r@ == piece_from(s@, sep@, k as nat, 0),
{
    let mut from: usize = 0;
    let mut left: usize = k;
    loop
        invariant
            from <= s.len(),
            piece_from(s@, sep@, k as nat, 0) == piece_from(s@, sep@, left as nat, from as int),
        decreases left,
    {
        proof {
            lemma_first_occurrence_from(s@, sep@, from as int);
        }
        match find_from(s, sep, from) {
            Some(i) => {
                if left == 0 {
                    return copy_range(s, from, i);
                }
                left -= 1;
                from = i + sep.len();
            },
            None => {
                if left == 0 {
                    let r = copy_range(s, from, s.len());
                    assert(s@.subrange(from as int, s.len() as int) == s@.skip(from as int));
                    return r;
                }
                return Vec::new();
            },
        }
    }
}

/// The text in which the id of a video is looked for, given the pairs of the
/// query of its address, the host of the address, and whether the path of the
/// address names the video.
pub fn find_id_source(pairs: &Vec<(String, String)>, host: &Option<String>, path_names_video: bool) -> (r:
    Option<String>)
    ensures
        r.deep_view() == id_source_of(pairs.deep_view(), host.deep_view(), path_names_video),
{
    let named = last_named(pairs, "v");
    let host_text: String = match host {
        Some(h) => h.clone(),
        None => String::new(),
    };
    if path_names_video && named.is_none() {
        let place: usize = if same_text(host_text.as_str(), SHORT_HOST) {
            1
        } else {
            2
        };
        let found = piece(&chars_of(host_text.as_str()), &chars_of("/"), place);
        Some(string_of(&found))
    } else if host.is_some() && !is_listed(&valid_query_domain_list(), host_text.as_str()) {
        None
    } else {
        named
    }
}

/// The first `n` characters of `text`, or all of it where it is shorter.
pub fn first_chars_of(text: String, n: usize) -> (r: String)
    ensures
        r@ == first_chars(text@, n as int),
{
    let chars = chars_of(text.as_str());
    if chars.len() <= n {
        text
    } else {
        let cut = string_of_range(&chars, 0, n);
        assert(chars@.subrange(0, n as int) == chars@.take(n as int));
        cut
    }
}

/// The id of the video at the address `url`.
pub fn get_url_video_id(url: &str) -> (r: Option<String>)
    ensures
        r.deep_view() == url_video_id(url@),
{
    let t = trim(url);
    let pairs = match url_pairs(t) {
        Some(pairs) => pairs,
        None => {
            return None;
        },
    };
    let host = match url_host_of(t) {
        Some(host) => host,
        None => {
            return None;
        },
    };
    match find_id_source(&pairs, &host, is_match(PATH_DOMAINS_PATTERN, t)) {
        None => None,
        Some(text) => {
            let id = first_chars_of(text, ID_LENGTH);
            if validate_id(id.clone()) {
                Some(id)
            } else {
                None
            }
        },
    }
}

/// The id of the video that `url` names: `url` itself where it is the id of a
/// video; else, for a web address, the id that the address gives.
pub fn get_video_id(url: &str) -> (r: Option<String>)
    ensures
        r.deep_view() == video_id(url@),
{
    if validate_id(String::from_str(url)) {
        Some(String::from_str(url))
    } else if is_match(SCHEME_PATTERN, trim(url)) {
        get_url_video_id(url)
    } else {
        None
    }
}

} // verus!
