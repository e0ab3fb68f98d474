//! Where a watch page says its player script is.

use vstd::prelude::*;
use crate::pattern::{group_text, regex_captures, regex_groups};

verus! {

/// The expression that finds the player script in a watch page: a script tag
/// named `player_ias/base`, or a `jsUrl` entry.
pub const HTML5PLAYER_PATTERN: &'static str =
    r#"<script\s+src="([^"]+)"(?:\s+type="text\\//javascript")?\s+name="player_ias\\//base"\s*>|"jsUrl":"([^"]+)""#;

/// The address of the platform, to which the path of a player script is
/// appended.
pub const PLAYER_BASE_URL: &'static str = "https://www.youtube.com/";

/// What a match of the player expression yields: its second group, else its
/// third, else nothing.
pub open spec fn player_path(groups: Seq<Option<Seq<char>>>) -> Seq<char> {
    match group_text(groups, 2) {
        Some(path) => path,
        None => match group_text(groups, 3) {
            Some(path) => path,
            None => Seq::empty(),
        },
    }
}

/// The text of group `i` of `groups`.
fn group(groups: &Vec<Option<String>>, i: usize) -> (r: Option<String>)
    ensures
        r.deep_view() == group_text(groups.deep_view(), i as int),
{
    if i < groups.len() {
        match &groups[i] {
            Some(text) => Some(text.clone()),
            None => None,
        }
    } else {
        None
    }
}

/// What a match of the player expression yields, given the groups of the
/// match: its second group, else its third, else nothing.
pub fn player_path_of(groups: &Vec<Option<String>>) -> (r: String)
    ensures
        r@ == player_path(groups.deep_view()),
{
    match group(groups, 2) {
        Some(path) => path,
        None => match group(groups, 3) {
            Some(path) => path,
            None => String::new(),
        },
    }
}

/// The path of the player script, as the watch page `body` gives it. `None`
/// where the page does not match the player expression.
pub fn get_html5player(body: &str) -> (r: Option<String>)
    ensures
        r.deep_view() == match regex_groups(HTML5PLAYER_PATTERN@, body@) {
            Some(groups) => Some(player_path(groups)),
            None => None,
        },
{
    match regex_captures(HTML5PLAYER_PATTERN, body) {
        None => None,
        Some(groups) => Some(player_path_of(&groups)),
    }
}

/// The address from which the player script at the path `html5player` is
/// fetched.
pub fn html5player_url(html5player: &str) -> (r: String)
    ensures
        r@ == PLAYER_BASE_URL@ + html5player@,
{
    let mut url = String::from_str(PLAYER_BASE_URL);
    url.append(html5player);
    url
}

} // verus!
