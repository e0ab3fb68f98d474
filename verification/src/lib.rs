//! Playable media URLs from a video platform's player payload.
//!
//! The platform hides its stream URLs behind two functions of a player
//! script: one deciphers the signature of a URL, the other transforms its `n`
//! parameter. This library finds the two functions in the script's text
//! ([`scan`], [`extract`]), resolves the URL of each format with them
//! ([`decipher`]), stamps the derived fields on the formats ([`normalize`])
//! and chooses the best or the worst format ([`rank`], [`order`],
//! [`select`]). The functions themselves are run by a script invoker that the
//! caller hands in.
//!
//! Around that stand what a player response says about a video
//! ([`response`], [`details`], [`player`], [`video_id`], [`duration`]), the JSON values in
//! which it says so ([`json`]), and the decisions of searching and of walking
//! a playlist ([`search`]).

pub mod decipher;
pub mod details;
pub mod duration;
pub mod extract;
pub mod format;
pub mod json;
pub mod normalize;
pub mod number;
pub mod order;
pub mod pattern;
pub mod player;
pub mod query;
pub mod rank;
pub mod response;
pub mod scan;
pub mod search;
pub mod select;
pub mod text;
pub mod video_id;
