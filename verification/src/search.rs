//! Searching and playlists: what is asked of the platform and what is made of
//! its answers. The requests themselves are carried out by a transport that
//! the caller hands in.

use vstd::prelude::*;
use crate::pattern::{is_match, matches_pattern, regex_find, regex_found};
use crate::text::{chars_of, occurs_at, matches_at};

verus! {

/// Why a request gave no result.
#[derive(Debug, PartialEq, Eq)]
pub enum VideoError {
    /// The text names no playlist.
    IsNotPlaylist(String),
    /// The transport could not carry the request out; the text says why.
    Request(String),
}

/// How requests are sent.
#[derive(Debug, PartialEq, Eq)]
pub struct RequestOptions {
    /// The proxy to send through.
    pub proxy: Option<String>,
    /// The cookies to send along.
    pub cookies: Option<String>,
}

impl Clone for RequestOptions {
    fn clone(&self) -> (r: Self)
        ensures
            r == *self,
    {
        RequestOptions { proxy: copy_option(&self.proxy), cookies: copy_option(&self.cookies) }
    }
}

/// What a search looks for.
#[derive(Clone, Copy, PartialEq, Eq, Structural, Debug)]
pub enum SearchType {
    /// Videos.
    Video,
    /// Channels.
    Channel,
    /// Playlists.
    Playlist,
    /// Anything.
    All,
}

/// How a search is made.
#[derive(Clone, Copy, PartialEq, Eq, Structural, Debug)]
pub struct SearchOptions {
    /// How many results are wanted at most.
    pub limit: u64,
    /// What is looked for.
    pub search_type: SearchType,
}

/// How the videos of a playlist are fetched.
#[derive(Clone, Copy, PartialEq, Eq, Structural, Debug)]
pub struct PlaylistSearchOptions {
    /// How many videos are wanted at most.
    pub limit: u64,
    /// All videos are wanted, whatever `limit` says.
    pub fetch_all: bool,
}

/// The language of suggestions.
#[derive(Debug, PartialEq, Eq)]
pub struct LanguageTags {
    /// The tag of the language, such as `en`.
    pub tag: String,
}

impl Clone for LanguageTags {
    fn clone(&self) -> (r: Self)
        ensures
            r == *self,
    {
        LanguageTags { tag: self.tag.clone() }
    }
}

/// A video, as a search or a playlist lists it.
#[derive(Debug, PartialEq, Eq)]
pub struct Video {
    /// The id of the video.
    pub id: String,
    /// The title of the video.
    pub title: String,
}

impl Clone for Video {
    fn clone(&self) -> (r: Self)
        ensures
            r == *self,
    {
        Video { id: self.id.clone(), title: self.title.clone() }
    }
}

/// A channel, as a search lists it.
#[derive(Debug, PartialEq, Eq)]
pub struct Channel {
    /// The id of the channel.
    pub id: String,
    /// The name of the channel.
    pub name: String,
}

/// One result of a search.
#[derive(Debug)]
pub enum SearchResult {
    /// A video.
    Video(Video),
    /// A playlist.
    Playlist(Playlist),
    /// A channel.
    Channel(Channel),
}

/// A search, as it is handed to the transport. A `limit` or `search_type` of
/// `None` leaves the choice to the platform.
#[derive(Debug)]
pub struct SearchRequest {
    /// What is searched for.
    pub query: String,
    /// How many results are wanted at most.
    pub limit: Option<u64>,
    /// What is looked for.
    pub search_type: Option<SearchType>,
    /// How the request is sent.
    pub request_options: RequestOptions,
}

/// A request for suggestions, as it is handed to the transport.
#[derive(Debug)]
pub struct SuggestionRequest {
    /// What the suggestions complete.
    pub query: String,
    /// The language of the suggestions; `None` for the platform's default.
    pub language: Option<LanguageTags>,
    /// How the request is sent.
    pub request_options: RequestOptions,
}

/// A request for videos of a playlist, as it is handed to the transport.
#[derive(Debug)]
pub enum PageRequest {
    /// The playlist at this URL, with its first videos.
    First(String),
    /// The videos that follow, for this continuation token.
    Next(String),
}

/// One answer of the platform to a `PageRequest`.
#[derive(Debug)]
pub struct Page {
    /// The id of the playlist.
    pub id: String,
    /// The name of the playlist.
    pub name: String,
    /// The videos of this page.
    pub videos: Vec<Video>,
    /// The token for the videos that follow, where more follow.
    pub continuation: Option<String>,
}

/// The search side of the platform.
#[derive(Debug)]
pub struct YouTube {
    /// How requests are sent.
    pub request_options: RequestOptions,
}

/// A playlist with the videos fetched so far.
#[derive(Debug)]
pub struct Playlist {
    /// The id of the playlist.
    pub id: String,
    /// The name of the playlist.
    pub name: String,
    /// The URL of the playlist.
    pub url: String,
    /// The videos fetched so far, in the playlist's order.
    pub videos: Vec<Video>,
    /// The token for the videos that follow. A playlist that a search listed
    /// has none, nor has one whose videos were all fetched.
    pub continuation: Option<String>,
}

/// The expression that the id of a playlist matches.
pub const PLAYLIST_ID_PATTERN: &'static str = "(PL|FL|UU|LL|RD|OL)[a-zA-Z0-9-_]{16,41}";

/// The expression that the id of an album matches.
pub const ALBUM_PATTERN: &'static str = "(RDC|O)LAK5uy_[a-zA-Z0-9-_]{33}";

/// What the URL of a playlist starts with, before the id.
pub const PLAYLIST_URL_PREFIX: &'static str = "https://www.youtube.com/playlist?list=";

/// The request options that send directly and without cookies.
pub open spec fn default_request_options() -> RequestOptions {
    RequestOptions { proxy: None, cookies: None }
}

/// The limit that `None` stands for.
pub open spec fn limit_or_max(limit: Option<u64>) -> u64 {
    match limit {
        Some(l) => l,
        None => u64::MAX,
    }
}

/// The first `limit` of `items`, or all of them where they are fewer.
pub open spec fn at_most<T>(items: Seq<T>, limit: u64) -> Seq<T> {
    if items.len() <= limit {
        items
    } else {
        items.take(limit as int)
    }
}

/// What starts the id of a mix.
pub const MIX_PREFIX: &'static str = "RD";

/// The id that is found in a text: the first playlist id in it, or the first
/// album id where it holds no playlist id.
pub open spec fn found_id(text: Seq<char>) -> Option<Seq<char>> {
    match regex_found(PLAYLIST_ID_PATTERN@, text) {
        Some(id) => Some(id),
        None => regex_found(ALBUM_PATTERN@, text),
    }
}

/// The URL of the playlist with the id `id`, where `is_album` tells whether
/// the id is that of an album: the fixed prefix and the id. `None` for a mix,
/// whose id starts with `RD` and is no album id.
pub open spec fn url_of_id(id: Seq<char>, is_album: bool) -> Option<Seq<char>> {
    if occurs_at(id, MIX_PREFIX@, 0) && !is_album {
        None
    } else {
        Some(PLAYLIST_URL_PREFIX@ + id)
    }
}

/// The URL of the playlist that `text` names: that of the id found in it.
/// `None` where no id is found, and for a mix.
pub open spec fn playlist_url(text: Seq<char>) -> Option<Seq<char>> {
    match found_id(text) {
        Some(id) => url_of_id(id, matches_pattern(ALBUM_PATTERN@, id)),
        None => None,
    }
}

/// A copy of an optional string.
fn copy_option(s: &Option<String>) -> (r: Option<String>)
    ensures
        r == *s,
{
    match s {
        Some(t) => Some(t.clone()),
        None => None,
    }
}

/// The first `limit` of `items`, or all of them where they are fewer.
fn first_videos(items: Vec<Video>, limit: u64) -> (r: Vec<Video>)
    ensures
        r@ == at_most(items@, limit),
{
    let mut items = items;
    if items.len() as u64 > limit {
        items.truncate(limit as usize);
    }
    items
}

impl YouTube {
    /// A search side that sends its requests directly and without cookies.
    pub fn new() -> (r: Result<Self, VideoError>)
        ensures
            r == Ok::<YouTube, VideoError>(YouTube { request_options: default_request_options() }),
    {
        Ok(YouTube { request_options: RequestOptions { proxy: None, cookies: None } })
    }

    /// A search side that sends its requests as `request_options` say.
    pub fn new_with_options(request_options: &RequestOptions) -> (r: Result<Self, VideoError>)
        ensures
            r == Ok::<YouTube, VideoError>(YouTube { request_options: *request_options }),
    {
        Ok(YouTube { request_options: request_options.clone() })
    }

    /// The request that `search` hands to the transport.
    pub open spec fn search_request(
        self,
        query: Seq<char>,
        search_options: Option<&SearchOptions>,
        request: SearchRequest,
    ) -> bool {
        &&& request.query@ == query
        &&& request.limit == match search_options {
            Some(o) => Some(o.limit),
            None => None,
        }
        &&& request.search_type == match search_options {
            Some(o) => Some(o.search_type),
            None => None,
        }
        &&& request.request_options == self.request_options
    }

    /// The request that `search_one` hands to the transport: that of `search`,
    /// but for one result.
    pub open spec fn search_one_request(
        self,
        query: Seq<char>,
        search_options: Option<&SearchOptions>,
        request: SearchRequest,
    ) -> bool {
        &&& request.query@ == query
        &&& request.limit == Some(1u64)
        &&& request.search_type == match search_options {
            Some(o) => Some(o.search_type),
            None => None,
        }
        &&& request.request_options == self.request_options
    }

    /// Searches for `query`. The transport is asked once, with the limit and
    /// the type of `search_options`, and its answer is returned as it is: the
    /// results in their order, empty where nothing is found, or the error.
    pub fn search<F: Fn(&SearchRequest) -> Result<Vec<SearchResult>, VideoError>>(
        &self,
        query: &str,
        search_options: Option<&SearchOptions>,
        transport: &F,
    ) -> (r: Result<Vec<SearchResult>, VideoError>)
        requires
            forall|request: &SearchRequest| call_requires(transport, (request,)),
        ensures
            exists|request: &SearchRequest|
                {
                    &&& self.search_request(query@, search_options, *request)
                    &&& #[trigger] call_ensures(transport, (request,), r)
                },
    {
        let request = SearchRequest {
            query: String::from_str(query),
            limit: match search_options {
                Some(o) => Some(o.limit),
                None => None,
            },
            search_type: match search_options {
                Some(o) => Some(o.search_type),
                None => None,
            },
            request_options: self.request_options.clone(),
        };
        transport(&request)
    }

    /// Searches for `query` and returns the first result, if there is one.
    /// The transport is asked once, for one result, whatever limit
    /// `search_options` name.
    pub fn search_one<F: Fn(&SearchRequest) -> Result<Vec<SearchResult>, VideoError>>(
        &self,
        query: &str,
        search_options: Option<&SearchOptions>,
        transport: &F,
    ) -> (r: Result<Option<SearchResult>, VideoError>)
        requires
            forall|request: &SearchRequest| call_requires(transport, (request,)),
        ensures
            exists|request: &SearchRequest, answer: Result<Vec<SearchResult>, VideoError>|
                {
                    &&& self.search_one_request(query@, search_options, *request)
                    &&& #[trigger] call_ensures(transport, (request,), answer)
                    &&& match answer {
                        Ok(found) => r == Ok::<Option<SearchResult>, VideoError>(
                            if found@.len() > 0 {
                                Some(found@[0])
                            } else {
                                None
                            },
                        ),
                        Err(e) => r == Err::<Option<SearchResult>, VideoError>(e),
                    }
                },
    {
        let request = SearchRequest {
            query: String::from_str(query),
            limit: Some(1),
            search_type: match search_options {
                Some(o) => Some(o.search_type),
                None => None,
            },
            request_options: self.request_options.clone(),
        };
        let answer = transport(&request);
        match answer {
            Ok(found) => {
                let mut found = found;
                if found.len() > 0 {
                    Ok(Some(found.swap_remove(0)))
                } else {
                    Ok(None)
                }
            },
            Err(e) => Err(e),
        }
    }

    /// The suggestions that complete `query`, in `language` or, for `None`,
    /// in the platform's default language. The transport is asked once and
    /// its answer returned.
    pub fn suggestion<F: Fn(&SuggestionRequest) -> Result<Vec<String>, VideoError>>(
        &self,
        query: &str,
        language: Option<LanguageTags>,
        transport: &F,
    ) -> (r: Result<Vec<String>, VideoError>)
        requires
            forall|request: &SuggestionRequest| call_requires(transport, (request,)),
        ensures
            exists|request: &SuggestionRequest|
                {
                    &&& request.query@ == query@
                    &&& request.language == language
                    &&& request.request_options == self.request_options
                    &&& #[trigger] call_ensures(transport, (request,), r)
                },
    {
        let request = SuggestionRequest {
            query: String::from_str(query),
            language: language,
            request_options: self.request_options.clone(),
        };
        transport(&request)
    }
}

/// The URL of the playlist with the id `id`, where `is_album` tells whether
/// the id is that of an album. `None` for a mix.
pub fn playlist_url_of(id: &str, is_album: bool) -> (r: Option<String>)
    ensures
        r.deep_view() == url_of_id(id@, is_album),
{
    let id_chars = chars_of(id);
    let mix = chars_of(MIX_PREFIX);
    if matches_at(&id_chars, &mix, 0) && !is_album {
        None
    } else {
        let mut url = String::from_str(PLAYLIST_URL_PREFIX);
        url.append(id);
        Some(url)
    }
}

impl Playlist {
    /// The URL of the playlist that `url_or_id` names: the fixed prefix and
    /// the playlist id, or else the album id, that the text holds. `None`
    /// where it holds neither, and for a mix.
    pub fn get_playlist_url(url_or_id: &str) -> (r: Option<String>)
        ensures
            r.deep_view() == playlist_url(url_or_id@),
    {
        let found = match regex_find(PLAYLIST_ID_PATTERN, url_or_id) {
            Some(id) => Some(id),
            None => regex_find(ALBUM_PATTERN, url_or_id),
        };
        match found {
            Some(id) => playlist_url_of(id.as_str(), is_match(ALBUM_PATTERN, id.as_str())),
            None => None,
        }
    }

    /// Whether `url_or_id` names a playlist.
    pub fn is_playlist(url_or_id: &str) -> (r: bool)
        ensures
            r == (playlist_url(url_or_id@) is Some),
    {
        Playlist::get_playlist_url(url_or_id).is_some()
    }

    /// Fetches the next videos of the playlist, `limit` of them at most, and
    /// returns them; `None` stands for no limit. A playlist without a
    /// continuation, such as one that a search listed, is left as it is, and
    /// the list is empty.
    pub fn next<F: Fn(&PageRequest) -> Result<Page, VideoError>>(
        &mut self,
        limit: Option<u64>,
        transport: &F,
    ) -> (r: Result<Vec<Video>, VideoError>)
        requires
            forall|request: &PageRequest| call_requires(transport, (request,)),
        ensures
            final(self).id == old(self).id,
            final(self).name == old(self).name,
            final(self).url == old(self).url,
            match old(self).continuation {
                None => *final(self) == *old(self) && r is Ok && r.unwrap()@.len() == 0,
                Some(token) => exists|request: &PageRequest, answer: Result<Page, VideoError>|
                    {
                        &&& *request == PageRequest::Next(token)
                        &&& #[trigger] call_ensures(transport, (request,), answer)
                        &&& match answer {
                            Ok(page) => {
                                &&& r is Ok
                                &&& r.unwrap()@ == at_most(page.videos@, limit_or_max(limit))
                                &&& final(self).videos@ == old(self).videos@ + r.unwrap()@
                                &&& final(self).continuation == page.continuation
                            },
                            Err(e) => *final(self) == *old(self) && r == Err::<
                                Vec<Video>,
                                VideoError,
                            >(e),
                        }
                    },
            },
    {
        let token = match &self.continuation {
            None => {
                return Ok(Vec::new());
            },
            Some(token) => token.clone(),
        };
        let request = PageRequest::Next(token);
        let answer = transport(&request);
        match answer {
            Err(e) => Err(e),
            Ok(page) => {
                let limit: u64 = match limit {
                    Some(l) => l,
                    None => u64::MAX,
                };
                let chunk = first_videos(page.videos, limit);
                let ghost before = self.videos@;
                let mut i: usize = 0;
                while i < chunk.len()
                    invariant
                        i <= chunk.len(),
                        self.videos@ == before + chunk@.take(i as int),
                        self.id == old(self).id,
                        self.name == old(self).name,
                        self.url == old(self).url,
                    decreases chunk.len() - i,
                {
                    self.videos.push(chunk[i].clone());
                    i += 1;
                    assert(self.videos@ =~= before + chunk@.take(i as int));
                }
                assert(chunk@.take(chunk.len() as int) =~= chunk@);
                self.continuation = page.continuation;
                Ok(chunk)
            },
        }
    }

    /// Fetches the videos of the playlist page by page until `limit` videos
    /// are held, no page follows, a request fails or a page brings nothing;
    /// `None` stands for no limit. Returned is the playlist itself. No video
    /// that was held is lost, the playlist holds more than `limit` videos
    /// only if it did before, and fetching stops for one of the four reasons
    /// only.
    pub fn fetch<F: Fn(&PageRequest) -> Result<Page, VideoError>>(
        &mut self,
        limit: Option<u64>,
        transport: &F,
    ) -> (r: &mut Self)
        requires
            forall|request: &PageRequest| call_requires(transport, (request,)),
        ensures
            r.id == old(self).id,
            r.name == old(self).name,
            r.url == old(self).url,
            old(self).videos@.is_prefix_of(r.videos@),
            r.videos@.len() <= limit_or_max(limit) || r.videos@ == old(self).videos@,
            old(self).continuation is None ==> *r == *old(self),
            r.continuation is None || r.videos@.len() >= limit_or_max(limit) || exists|
                request: &PageRequest,
                answer: Result<Page, VideoError>,
            |
                {
                    &&& *request is Next
                    &&& #[trigger] call_ensures(transport, (request,), answer)
                    &&& match answer {
                        Ok(page) => page.videos@.len() == 0,
                        Err(_) => true,
                    }
                },
            *final(self) == *final(r),
    {
        let bound: u64 = match limit {
            Some(l) => l,
            None => u64::MAX,
        };
        loop
            invariant
                bound == limit_or_max(limit),
                forall|request: &PageRequest| call_requires(transport, (request,)),
                self.id == old(self).id,
                self.name == old(self).name,
                self.url == old(self).url,
                old(self).videos@.is_prefix_of(self.videos@),
                self.videos@.len() <= bound || self.videos@ == old(self).videos@,
                old(self).continuation is None ==> *self == *old(self),
            ensures
                self.continuation is None || self.videos@.len() >= bound || exists|
                    request: &PageRequest,
                    answer: Result<Page, VideoError>,
                |
                    {
                        &&& *request is Next
                        &&& #[trigger] call_ensures(transport, (request,), answer)
                        &&& match answer {
                            Ok(page) => page.videos@.len() == 0,
                            Err(_) => true,
                        }
                    },
            decreases bound - self.videos@.len(),
        {
            if self.continuation.is_none() || self.videos.len() as u64 >= bound {
                break;
            }
            let room: u64 = bound - self.videos.len() as u64;
            match self.next(Some(room), transport) {
                Ok(chunk) => {
                    if chunk.len() == 0 {
                        break;
                    }
                },
                Err(_) => {
                    break;
                },
            }
        }
        self
    }

    /// The playlist that `answer` describes, as `get` builds it for `url`.
    pub open spec fn from_page(url: Seq<char>, page: Page, playlist: Playlist) -> bool {
        &&& playlist.id == page.id
        &&& playlist.name == page.name
        &&& playlist.url@ == url
        &&& playlist.videos == page.videos
        &&& playlist.continuation == page.continuation
    }

    /// The playlist that `url` names, with its first videos. The text must
    /// name a playlist, or the error says that it does not; then the
    /// transport is asked for the playlist at its URL. With `options`, more
    /// pages are fetched: up to `limit` videos, or all with `fetch_all`.
    pub fn get<F: Fn(&PageRequest) -> Result<Page, VideoError>>(
        url: &str,
        options: Option<&PlaylistSearchOptions>,
        transport: &F,
    ) -> (r: Result<Self, VideoError>)
        requires
            forall|request: &PageRequest| call_requires(transport, (request,)),
        ensures
            playlist_url(url@) is None ==> match r {
                Err(VideoError::IsNotPlaylist(text)) => text@ == url@,
                _ => false,
            },
            playlist_url(url@) matches Some(target) ==> exists|
                request: &PageRequest,
                answer: Result<Page, VideoError>,
            |
                {
                    &&& match *request {
                        PageRequest::First(asked) => asked@ == target,
                        PageRequest::Next(_) => false,
                    }
                    &&& #[trigger] call_ensures(transport, (request,), answer)
                    &&& match answer {
                        Ok(page) => {
                            &&& r is Ok
                            &&& r.unwrap().id == page.id
                            &&& r.unwrap().name == page.name
                            &&& r.unwrap().url@ == target
                            &&& page.videos@.is_prefix_of(r.unwrap().videos@)
                            &&& (options is None || page.continuation is None) ==> Playlist::from_page(
                                target,
                                page,
                                r.unwrap(),
                            )
                        },
                        Err(e) => r == Err::<Playlist, VideoError>(e),
                    }
                },
    {
        let target = match Playlist::get_playlist_url(url) {
            Some(target) => target,
            None => {
                return Err(VideoError::IsNotPlaylist(String::from_str(url)));
            },
        };
        let request = PageRequest::First(target.clone());
        let answer = transport(&request);
        match answer {
            Err(e) => Err(e),
            Ok(page) => {
                let mut playlist = Playlist {
                    id: page.id,
                    name: page.name,
                    url: target,
                    videos: page.videos,
                    continuation: page.continuation,
                };
                match options {
                    Some(o) => {
                        let limit = if o.fetch_all {
                            None
                        } else {
                            Some(o.limit)
                        };
                        let _ = playlist.fetch(limit, transport);
                    },
                    None => {},
                }
                Ok(playlist)
            },
        }
    }
}

} // verus!
