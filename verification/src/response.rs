//! What a player response and its parts say about a video.

use vstd::prelude::*;
use crate::json::Json;
use crate::query::same_text;
use crate::text::{chars_of, contains_text, find};

verus! {

/// The status of a video that cannot be played because it must be rented or
/// bought.
pub const STATUS_UNPLAYABLE: &'static str = "UNPLAYABLE";

/// The status of a live stream that has not started.
pub const STATUS_OFFLINE: &'static str = "LIVE_STREAM_OFFLINE";

/// The status of a video that only its owner may see.
pub const STATUS_LOGIN_REQUIRED: &'static str = "LOGIN_REQUIRED";

/// The tooltip of the badge that a verified channel carries.
pub const VERIFIED: &'static str = "Verified";

/// The addresses that the platform links to from a video with an age
/// restriction.
pub open spec fn age_restricted_urls() -> Seq<Seq<char>> {
    seq!["support.google.com/youtube/?p=age_restrictions"@, "youtube.com/t/community_guidelines"@]
}

/// The playability status of a player response, where it has one.
pub open spec fn playability(player_response: Json) -> Option<Json> {
    player_response.member("playabilityStatus"@)
}

/// The status text of a player response, where its playability status holds
/// one.
pub open spec fn status_text(player_response: Json) -> Option<Seq<char>> {
    match playability(player_response) {
        Some(p) => match p.member("status"@) {
            Some(s) => s.text(),
            None => None,
        },
        None => None,
    }
}

/// The status text of a player response; empty where it holds none.
pub open spec fn status_or_empty(player_response: Json) -> Seq<char> {
    match status_text(player_response) {
        Some(s) => s,
        None => Seq::empty(),
    }
}

/// The error screen of the playability status offers the video for rent or
/// purchase.
pub open spec fn has_offer(player_response: Json) -> bool {
    match playability(player_response) {
        Some(p) => match p.member("errorScreen"@) {
            Some(screen) => screen.member("playerLegacyDesktopYpcOfferRenderer"@) is Some,
            None => false,
        },
        None => false,
    }
}

/// The status text of `player_response`.
fn status_of(player_response: &Json) -> (r: Option<&str>)
    ensures
        match r {
            Some(s) => status_text(*player_response) == Some(s@),
            None => status_text(*player_response) is None,
        },
{
    match player_response.get("playabilityStatus") {
        Some(p) => match p.get("status") {
            Some(s) => s.as_str(),
            None => None,
        },
        None => None,
    }
}

/// Whether the status text of `player_response` is `status`.
fn has_status(player_response: &Json, status: &str) -> (r: bool)
    ensures
        r == (status_or_empty(*player_response) == status@),
{
    proof {
        reveal_strlit("");
        assert(""@ =~= Seq::<char>::empty());
    }
    let found = match status_of(player_response) {
        Some(s) => s,
        None => "",
    };
    same_text(found, status)
}

/// Whether the video must be rented or bought: its status is `UNPLAYABLE`
/// and its error screen makes an offer.
pub fn is_rental(player_response: &Json) -> (r: bool)
    ensures
        r == (status_or_empty(*player_response) == STATUS_UNPLAYABLE@ && has_offer(
            *player_response,
        )),
{
    let offer = match player_response.get("playabilityStatus") {
        Some(p) => match p.get("errorScreen") {
            Some(screen) => screen.get("playerLegacyDesktopYpcOfferRenderer").is_some(),
            None => false,
        },
        None => false,
    };
    has_status(player_response, STATUS_UNPLAYABLE) && offer
}

/// Whether the video is a live stream that has not started: its status is
/// `LIVE_STREAM_OFFLINE`.
pub fn is_not_yet_broadcasted(player_response: &Json) -> (r: bool)
    ensures
        r == (status_or_empty(*player_response) == STATUS_OFFLINE@),
{
    has_status(player_response, STATUS_OFFLINE)
}

/// Whether the video is private: its status is `LOGIN_REQUIRED`.
pub fn is_private_video(player_response: &Json) -> (r: bool)
    ensures
        r == (status_or_empty(*player_response) == STATUS_LOGIN_REQUIRED@),
{
    has_status(player_response, STATUS_LOGIN_REQUIRED)
}

/// One of `statuses` is `status`.
pub open spec fn lists_status(statuses: Seq<&str>, status: Seq<char>) -> bool {
    exists|i: int| 0 <= i < statuses.len() && (#[trigger] statuses[i])@ == status
}

/// Whether the status of the video is one of `statuses`. A response without a
/// status text has none of them.
pub fn is_play_error(player_response: &Json, statuses: Vec<&str>) -> (r: bool)
    ensures
        r == match status_text(*player_response) {
            Some(s) => lists_status(statuses@, s),
            None => false,
        },
{
    match status_of(player_response) {
        None => false,
        Some(status) => {
            let mut i: usize = 0;
            while i < statuses.len()
                invariant
                    i <= statuses.len(),
                    status_text(*player_response) == Some(status@),
                    forall|j: int| 0 <= j < i ==> (#[trigger] statuses@[j])@ != status@,
                decreases statuses.len() - i,
            {
                if same_text(statuses[i], status) {
                    return true;
                }
                i += 1;
            }
            false
        },
    }
}

/// The tooltip of a badge: the text of `metadataBadgeRenderer.tooltip`.
pub open spec fn badge_tooltip(badge: Json) -> Option<Seq<char>> {
    match badge.member("metadataBadgeRenderer"@) {
        Some(renderer) => match renderer.member("tooltip"@) {
            Some(tooltip) => tooltip.text(),
            None => None,
        },
        None => None,
    }
}

/// One of `badges` has the tooltip `Verified`.
pub open spec fn has_verified_badge(badges: Seq<Json>) -> bool {
    exists|i: int| 0 <= i < badges.len() && badge_tooltip(#[trigger] badges[i]) == Some(VERIFIED@)
}

/// Whether a channel is verified: `badges` is an array and one of the badges
/// has the tooltip `Verified`.
pub fn is_verified(badges: &Json) -> (r: bool)
    ensures
        r == match badges.items() {
            Some(list) => has_verified_badge(list),
            None => false,
        },
{
    match badges.as_array() {
        None => false,
        Some(list) => {
            let mut i: usize = 0;
            while i < list.len()
                invariant
                    i <= list.len(),
                    badges.items() == Some(list@),
                    forall|j: int|
                        0 <= j < i ==> badge_tooltip(#[trigger] list@[j]) != Some(VERIFIED@),
                decreases list.len() - i,
            {
                let tooltip = match list[i].get("metadataBadgeRenderer") {
                    Some(renderer) => match renderer.get("tooltip") {
                        Some(tooltip) => tooltip.as_str(),
                        None => None,
                    },
                    None => None,
                };
                match tooltip {
                    Some(t) => {
                        if same_text(t, VERIFIED) {
                            assert(badge_tooltip(list@[i as int]) == Some(VERIFIED@));
                            return true;
                        }
                    },
                    None => {},
                }
                i += 1;
            }
            false
        },
    }
}

/// The member at `i` holds a string in which one of `urls` occurs.
pub open spec fn links_to(members: Seq<(String, Json)>, i: int, urls: Seq<Seq<char>>) -> bool {
    exists|k: int|
        0 <= k < urls.len() && members[i].1.text() is Some && contains_text(
            members[i].1.text().unwrap(),
            #[trigger] urls[k],
        )
}

/// One of the members holds a string in which one of `urls` occurs.
pub open spec fn links_to_any(members: Seq<(String, Json)>, urls: Seq<Seq<char>>) -> bool {
    exists|i: int| 0 <= i < members.len() && #[trigger] links_to(members, i, urls)
}

/// The addresses that the platform links to from a video with an age
/// restriction.
pub fn age_restricted_url_list() -> (r: Vec<&'static str>)
    ensures
        r.deep_view() == age_restricted_urls(),
        r.len() == 2,
{
    let r = vec![
        "support.google.com/youtube/?p=age_restrictions",
        "youtube.com/t/community_guidelines",
    ];
    assert(r.deep_view() =~= age_restricted_urls());
    r
}

/// Whether `text` holds one of `urls`.
fn holds_one_of(text: &str, urls: &Vec<&'static str>) -> (r: bool)
    ensures
        r == exists|k: int|
            0 <= k < urls.len() && contains_text(text@, #[trigger] urls.deep_view()[k]),
{
    let hay = chars_of(text);
    let mut k: usize = 0;
    while k < urls.len()
        invariant
            k <= urls.len(),
            hay@ == text@,
            forall|j: int| 0 <= j < k ==> !contains_text(text@, #[trigger] urls.deep_view()[j]),
        decreases urls.len() - k,
    {
        let needle = chars_of(urls[k]);
        assert(urls.deep_view()[k as int] == needle@);
        if find(&hay, &needle).is_some() {
            return true;
        }
        k += 1;
    }
    false
}

/// Whether a video has an age restriction: `media` is an object and one of
/// its members holds a string in which one of the addresses for age
/// restrictions occurs.
pub fn is_age_restricted(media: &Json) -> (r: bool)
    ensures
        r == links_to_any(media.members(), age_restricted_urls()),
{
    let urls = age_restricted_url_list();
    match media {
        Json::Object(members) => {
            let mut i: usize = 0;
            while i < members.len()
                invariant
                    i <= members.len(),
                    media.members() == members@,
                    urls.deep_view() == age_restricted_urls(),
                    forall|j: int|
                        0 <= j < i ==> !#[trigger] links_to(members@, j, age_restricted_urls()),
                decreases members.len() - i,
            {
                match members[i].1.as_str() {
                    Some(text) => {
                        if holds_one_of(text, &urls) {
                            assert(links_to(members@, i as int, age_restricted_urls()));
                            return true;
                        }
                    },
                    None => {},
                }
                i += 1;
            }
            false
        },
        _ => false,
    }
}

/// The text of a label: the `text` of the first of its `runs`, where it has
/// runs, else its `simpleText`.
pub open spec fn label_text(label: Json) -> Option<Json> {
    match label.member("runs"@) {
        Some(runs) => match runs.items() {
            Some(list) => if list.len() > 0 {
                list[0].member("text"@)
            } else {
                None
            },
            None => None,
        },
        None => label.member("simpleText"@),
    }
}

/// The text of a label: the `text` of the first of its `runs`, where it has
/// runs, else its `simpleText`; `null` where it has neither. Runs must be an
/// array.
pub fn get_text(obj: &Json) -> (r: &Json)
    requires
        obj.member("runs"@) matches Some(runs) ==> runs is Array,
    ensures
        *r == match label_text(*obj) {
            Some(text) => text,
            None => Json::Null,
        },
{
    let found = match obj.get("runs") {
        Some(runs) => match runs.as_array() {
            Some(list) => {
                if list.len() > 0 {
                    list[0].get("text")
                } else {
                    None
                }
            },
            None => None,
        },
        None => obj.get("simpleText"),
    };
    match found {
        Some(text) => text,
        None => &Json::Null,
    }
}

/// The service whose parameters hold the client version.
pub const CSI_SERVICE: &'static str = "CSI";

/// The parameter that holds the client version.
pub const CVER_KEY: &'static str = "cver";

/// The `value` of the first of `entries`, at or after `from`, whose member
/// `name` is the text `wanted`. `None` where an entry before it has no text
/// under `name`, and where there is no such entry.
pub open spec fn entry_value(
    entries: Seq<Json>,
    name: Seq<char>,
    wanted: Seq<char>,
    value: Seq<char>,
    from: int,
) -> Option<Json>
    decreases entries.len() - from,
{
    if from < 0 || from >= entries.len() {
        None
    } else {
        match entries[from].member(name) {
            Some(found) => match found.text() {
                Some(t) => if t == wanted {
                    entries[from].member(value)
                } else {
                    entry_value(entries, name, wanted, value, from + 1)
                },
                None => None,
            },
            None => None,
        }
    }
}

/// The client version that a response names: under `responseContext`, in the
/// list `serviceTrackingParams`, the first entry of the service `CSI` holds a
/// list `params`, and there the first entry with the key `cver` holds the
/// version as its value. `None` where the response is not of that shape.
pub open spec fn client_version(info: Json) -> Option<Seq<char>> {
    match info.member("responseContext"@) {
        Some(context) => match context.member("serviceTrackingParams"@) {
            Some(tracking) => match tracking.items() {
                Some(services) => match entry_value(
                    services,
                    "service"@,
                    CSI_SERVICE@,
                    "params"@,
                    0,
                ) {
                    Some(params) => match params.items() {
                        Some(list) => match entry_value(list, "key"@, CVER_KEY@, "value"@, 0) {
                            Some(version) => version.text(),
                            None => None,
                        },
                        None => None,
                    },
                    None => None,
                },
                None => None,
            },
            None => None,
        },
        None => None,
    }
}

/// The `value` of the first of `entries` whose member `name` is the text
/// `wanted`.
fn value_of_entry<'a>(entries: &'a Vec<Json>, name: &str, wanted: &str, value: &str) -> (r: Option<
    &'a Json,
>)
    ensures
        match r {
            Some(found) => entry_value(entries@, name@, wanted@, value@, 0) == Some(*found),
            None => entry_value(entries@, name@, wanted@, value@, 0) is None,
        },
{
    let mut i: usize = 0;
    while i < entries.len()
        invariant
            i <= entries.len(),
            entry_value(entries@, name@, wanted@, value@, 0) == entry_value(
                entries@,
                name@,
                wanted@,
                value@,
                i as int,
            ),
        decreases entries.len() - i,
    {
        let text = match entries[i].get(name) {
            Some(found) => found.as_str(),
            None => None,
        };
        match text {
            Some(t) => {
                if same_text(t, wanted) {
                    return entries[i].get(value);
                }
            },
            None => {
                return None;
            },
        }
        i += 1;
    }
    None
}

/// The client version that the response `info` names, where it is of the
/// shape that `client_version` describes.
pub fn find_cver(info: &Json) -> (r: Option<&str>)
    ensures
        match r {
            Some(version) => client_version(*info) == Some(version@),
            None => client_version(*info) is None,
        },
{
    let services = match info.get("responseContext") {
        Some(context) => match context.get("serviceTrackingParams") {
            Some(tracking) => match tracking.as_array() {
                Some(services) => services,
                None => {
                    return None;
                },
            },
            None => {
                return None;
            },
        },
        None => {
            return None;
        },
    };
    let params = match value_of_entry(services, "service", CSI_SERVICE, "params") {
        Some(params) => match params.as_array() {
            Some(list) => list,
            None => {
                return None;
            },
        },
        None => {
            return None;
        },
    };
    match value_of_entry(params, "key", CVER_KEY, "value") {
        Some(version) => version.as_str(),
        None => None,
    }
}

/// The client version that the response `info` names. The response must be
/// of the shape that `client_version` describes.
pub fn get_cver(info: &Json) -> (r: &str)
    requires
        client_version(*info) is Some,
    ensures
        r@ == client_version(*info).unwrap(),
{
    match find_cver(info) {
        Some(version) => version,
        None => "",
    }
}

} // verus!
