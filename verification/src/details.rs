//! The details of a video, gathered from its player response.

use vstd::prelude::*;
use crate::format::field_flag;
use crate::json::{lemma_member_view, merge, merged, view_member, Json, JsonView};
use crate::number::{low_32_bits, low_i32, parse_i64, parsed_i64};
use crate::response::{
    age_restricted_urls, get_text, is_age_restricted, label_text, links_to_any,
};
use crate::text::chars_of;

verus! {

/// What the address of a video starts with, before its id.
pub const BASE_URL: &'static str = "https://www.youtube.com/watch?v=";

/// How a video is embedded.
#[derive(Debug, PartialEq, Eq)]
pub struct Embed {
    pub flash_secure_url: String,
    pub flash_url: String,
    pub iframe_url: String,
    pub height: i32,
    pub width: i32,
}

/// A preview picture of a video.
#[derive(Debug, PartialEq, Eq)]
pub struct Thumbnail {
    pub width: i32,
    pub height: i32,
    pub url: String,
}

/// The details of a video.
#[derive(Debug, PartialEq, Eq)]
pub struct VideoDetails {
    pub age_restricted: bool,
    pub media: Json,
    pub video_url: String,
    pub embed: Embed,
    pub title: String,
    pub description: String,
    pub length_seconds: String,
    pub owner_profile_url: String,
    pub external_channel_id: String,
    pub is_family_safe: bool,
    pub available_countries: Vec<String>,
    pub is_unlisted: bool,
    pub has_ypc_metadata: bool,
    pub view_count: String,
    pub category: String,
    pub publish_date: String,
    pub owner_channel_name: String,
    pub upload_date: String,
    pub video_id: String,
    pub keywords: Vec<String>,
    pub channel_id: String,
    pub is_owner_viewing: bool,
    pub is_crawlable: bool,
    pub allow_ratings: bool,
    pub is_private: bool,
    pub is_unplugged_corpus: bool,
    pub is_live_content: bool,
    pub thumbnails: Vec<Thumbnail>,
}

/// The text of the member `name`; `default` where there is no such member or
/// it holds no string.
pub open spec fn text_or(j: Json, name: Seq<char>, default: Seq<char>) -> Seq<char> {
    match j.member(name) {
        Some(value) => match value.text() {
            Some(t) => t,
            None => default,
        },
        None => default,
    }
}

/// The member `name`, or `null` where there is none.
pub open spec fn member_or_null(j: Json, name: Seq<char>) -> Json {
    match j.member(name) {
        Some(value) => value,
        None => Json::Null,
    }
}

/// The texts of the list that the member `name` holds, an item that is no
/// string counting as empty; none where the member holds no list.
pub open spec fn texts_of(j: Json, name: Seq<char>) -> Seq<Seq<char>> {
    match member_or_null(j, name).items() {
        Some(list) => Seq::new(list.len(), |i: int| list[i].text_or_empty()),
        None => Seq::empty(),
    }
}

/// The number that the member `name` holds, as a signed 32-bit integer: a
/// string is read as a signed 64-bit integer, and what is no number counts as
/// 0; of the number the low 32 bits are kept.
pub open spec fn dimension_of(j: Json, name: Seq<char>) -> int {
    low_32_bits(
        match j.member(name) {
            Some(value) => match value {
                Json::Text(t) => match parsed_i64(t@) {
                    Some(n) => n,
                    None => 0,
                },
                Json::Integer(n) => n as int,
                _ => 0,
            },
            None => 0,
        },
    )
}

/// The description of a video: its `shortDescription`, or else the text of
/// the label `description`.
pub open spec fn description_of(data: Json) -> Seq<char> {
    match data.member("shortDescription"@) {
        Some(short) => short.text_or_empty(),
        None => match label_text(member_or_null(data, "description"@)) {
            Some(text) => text.text_or_empty(),
            None => Seq::empty(),
        },
    }
}

/// The records of the preview pictures of a video: the list `thumbnails` of
/// its `thumbnail`.
pub open spec fn thumbnail_records(data: Json) -> Seq<Json> {
    match member_or_null(member_or_null(data, "thumbnail"@), "thumbnails"@).items() {
        Some(list) => list,
        None => Seq::empty(),
    }
}

/// `t` is the preview picture that the record `j` describes.
pub open spec fn is_thumbnail_of(t: Thumbnail, j: Json) -> bool {
    &&& t.width == dimension_of(j, "width"@)
    &&& t.height == dimension_of(j, "height"@)
    &&& t.url@ == text_or(j, "url"@, Seq::empty())
}

/// `e` is the embedding that the record `j` describes.
pub open spec fn is_embed_of(e: Embed, j: Json) -> bool {
    &&& e.flash_secure_url@ == text_or(j, "flashSecureUrl"@, Seq::empty())
    &&& e.flash_url@ == text_or(j, "flashUrl"@, Seq::empty())
    &&& e.iframe_url@ == text_or(j, "iframeUrl"@, Seq::empty())
    &&& e.height == dimension_of(j, "height"@)
    &&& e.width == dimension_of(j, "width"@)
}

/// The description of `data` can be read: where it has no `shortDescription`
/// and its `description` has runs, the runs are a list.
pub open spec fn description_is_readable(data: Json) -> bool {
    data.member("shortDescription"@) is None ==> match member_or_null(
        data,
        "description"@,
    ).member("runs"@) {
        Some(runs) => runs is Array,
        None => true,
    }
}

/// `d` holds the details that the record `data` gives of the video `id` with
/// the media `media`. A text that the record does not give is empty, but a
/// length, a view count and a video id that it does not give read `0`. A
/// flag that it does not set is false.
pub open spec fn is_details_of(d: VideoDetails, data: Json, media: Json, id: Seq<char>) -> bool {
    &&& d.age_restricted == links_to_any(media.members(), age_restricted_urls())
    &&& d.media == media
    &&& d.video_url@ == BASE_URL@ + id
    &&& is_embed_of(d.embed, member_or_null(data, "embed"@))
    &&& d.title@ == text_or(data, "title"@, Seq::empty())
    &&& d.description@ == description_of(data)
    &&& d.length_seconds@ == text_or(data, "lengthSeconds"@, "0"@)
    &&& d.owner_profile_url@ == text_or(data, "ownerProfileUrl"@, Seq::empty())
    &&& d.external_channel_id@ == text_or(data, "externalChannelId"@, Seq::empty())
    &&& d.is_family_safe == field_flag(data, "isFamilySafe"@)
    &&& d.available_countries.deep_view() == texts_of(data, "availableCountries"@)
    &&& d.is_unlisted == field_flag(data, "isUnlisted"@)
    &&& d.has_ypc_metadata == field_flag(data, "hasYpcMetadata"@)
    &&& d.view_count@ == text_or(data, "viewCount"@, "0"@)
    &&& d.category@ == text_or(data, "category"@, Seq::empty())
    &&& d.publish_date@ == text_or(data, "publishDate"@, Seq::empty())
    &&& d.owner_channel_name@ == text_or(data, "ownerChannelName"@, Seq::empty())
    &&& d.upload_date@ == text_or(data, "uploadDate"@, Seq::empty())
    &&& d.video_id@ == text_or(data, "videoId"@, "0"@)
    &&& d.keywords.deep_view() == texts_of(data, "keywords"@)
    &&& d.channel_id@ == text_or(data, "channelId"@, Seq::empty())
    &&& d.is_owner_viewing == field_flag(data, "isOwnerViewing"@)
    &&& d.is_crawlable == field_flag(data, "isCrawlable"@)
    &&& d.allow_ratings == field_flag(data, "allowRatings"@)
    &&& d.is_private == field_flag(data, "isPrivate"@)
    &&& d.is_unplugged_corpus == field_flag(data, "isUnpluggedCorpus"@)
    &&& d.is_live_content == field_flag(data, "isLiveContent"@)
    &&& d.thumbnails@.len() == thumbnail_records(data).len()
    &&& forall|i: int|
        0 <= i < d.thumbnails@.len() ==> is_thumbnail_of(
            #[trigger] d.thumbnails@[i],
            thumbnail_records(data)[i],
        )
}

/// The text of the member `name` of `j`, or `default`.
fn string_or(j: &Json, name: &str, default: &str) -> (r: String)
    ensures
        r@ == text_or(*j, name@, default@),
{
    match j.get(name) {
        Some(value) => match value.as_str() {
            Some(t) => String::from_str(t),
            None => String::from_str(default),
        },
        None => String::from_str(default),
    }
}

/// The text of the member `name` of `j`, or nothing.
fn string_of(j: &Json, name: &str) -> (r: String)
    ensures
        r@ == text_or(*j, name@, Seq::empty()),
{
    proof {
        reveal_strlit("");
        assert(""@ =~= Seq::<char>::empty());
    }
    string_or(j, name, "")
}

/// Whether the member `name` of `j` holds `true`.
fn flag_of(j: &Json, name: &str) -> (r: bool)
    ensures
        r == field_flag(*j, name@),
{
    match j.get(name) {
        Some(value) => match value.as_bool() {
            Some(b) => b,
            None => false,
        },
        None => false,
    }
}

/// The member `name` of `j`, or `null`.
fn get_or<'a>(j: &'a Json, name: &str, null: &'a Json) -> (r: &'a Json)
    requires
        *null == Json::Null,
    ensures
        *r == member_or_null(*j, name@),
{
    match j.get(name) {
        Some(value) => value,
        None => null,
    }
}

/// The texts of the list that the member `name` of `j` holds.
fn strings_of(j: &Json, name: &str) -> (r: Vec<String>)
    ensures
        r.deep_view() == texts_of(*j, name@),
{
    let null = Json::Null;
    let mut r: Vec<String> = Vec::new();
    match get_or(j, name, &null).as_array() {
        Some(list) => {
            let mut i: usize = 0;
            while i < list.len()
                invariant
                    i <= list.len(),
                    r.len() == i,
                    forall|k: int| 0 <= k < i ==> r@[k]@ == list@[k].text_or_empty(),
                decreases list.len() - i,
            {
                let text = match list[i].as_str() {
                    Some(t) => String::from_str(t),
                    None => String::new(),
                };
                r.push(text);
                i += 1;
            }
            assert(r.deep_view() =~= texts_of(*j, name@));
            r
        },
        None => {
            assert(r.deep_view() =~= texts_of(*j, name@));
            r
        },
    }
}

/// The number that the member `name` of `j` holds, as a signed 32-bit integer.
fn dimension(j: &Json, name: &str) -> (r: i32)
    ensures
        r == dimension_of(*j, name@),
{
    let n: i64 = match j.get(name) {
        Some(value) => match value {
            Json::Text(t) => match parse_i64(&chars_of(t.as_str())) {
                Some(n) => n,
                None => 0,
            },
            Json::Integer(n) => *n,
            _ => 0,
        },
        None => 0,
    };
    low_i32(n)
}

/// The description of `data`.
fn description(data: &Json) -> (r: String)
    requires
        description_is_readable(*data),
    ensures
        r@ == description_of(*data),
{
    let null = Json::Null;
    match data.get("shortDescription") {
        Some(short) => match short.as_str() {
            Some(t) => String::from_str(t),
            None => String::new(),
        },
        None => match get_text(get_or(data, "description", &null)).as_str() {
            Some(t) => String::from_str(t),
            None => String::new(),
        },
    }
}

/// The preview pictures of `data`.
fn thumbnails(data: &Json) -> (r: Vec<Thumbnail>)
    ensures
        r@.len() == thumbnail_records(*data).len(),
        forall|i: int|
            0 <= i < r@.len() ==> is_thumbnail_of(#[trigger] r@[i], thumbnail_records(*data)[i]),
{
    let null = Json::Null;
    let mut r: Vec<Thumbnail> = Vec::new();
    match get_or(get_or(data, "thumbnail", &null), "thumbnails", &null).as_array() {
        Some(list) => {
            let mut i: usize = 0;
            while i < list.len()
                invariant
                    i <= list.len(),
                    r.len() == i,
                    thumbnail_records(*data) == list@,
                    forall|k: int| 0 <= k < i ==> is_thumbnail_of(#[trigger] r@[k], list@[k]),
                decreases list.len() - i,
            {
                r.push(
                    Thumbnail {
                        width: dimension(&list[i], "width"),
                        height: dimension(&list[i], "height"),
                        url: string_of(&list[i], "url"),
                    },
                );
                i += 1;
            }
            r
        },
        None => r,
    }
}

/// The details that the record `data` gives of the video `id` with the media
/// `media`. The description of `data` must be readable.
pub fn video_details(data: &Json, media: Json, id: String) -> (d: VideoDetails)
    requires
        description_is_readable(*data),
    ensures
        is_details_of(d, *data, media, id@),
{
    let null = Json::Null;
    let embed = get_or(data, "embed", &null);
    let mut video_url = String::from_str(BASE_URL);
    video_url.append(id.as_str());
    VideoDetails {
        age_restricted: is_age_restricted(&media),
        media: media,
        video_url: video_url,
        embed: Embed {
            flash_secure_url: string_of(embed, "flashSecureUrl"),
            flash_url: string_of(embed, "flashUrl"),
            iframe_url: string_of(embed, "iframeUrl"),
            height: dimension(embed, "height"),
            width: dimension(embed, "width"),
        },
        title: string_of(data, "title"),
        description: description(data),
        length_seconds: string_or(data, "lengthSeconds", "0"),
        owner_profile_url: string_of(data, "ownerProfileUrl"),
        external_channel_id: string_of(data, "externalChannelId"),
        is_family_safe: flag_of(data, "isFamilySafe"),
        available_countries: strings_of(data, "availableCountries"),
        is_unlisted: flag_of(data, "isUnlisted"),
        has_ypc_metadata: flag_of(data, "hasYpcMetadata"),
        view_count: string_or(data, "viewCount", "0"),
        category: string_of(data, "category"),
        publish_date: string_of(data, "publishDate"),
        owner_channel_name: string_of(data, "ownerChannelName"),
        upload_date: string_of(data, "uploadDate"),
        video_id: string_or(data, "videoId", "0"),
        keywords: strings_of(data, "keywords"),
        channel_id: string_of(data, "channelId"),
        is_owner_viewing: flag_of(data, "isOwnerViewing"),
        is_crawlable: flag_of(data, "isCrawlable"),
        allow_ratings: flag_of(data, "allowRatings"),
        is_private: flag_of(data, "isPrivate"),
        is_unplugged_corpus: flag_of(data, "isUnpluggedCorpus"),
        is_live_content: flag_of(data, "isLiveContent"),
        thumbnails: thumbnails(data),
    }
}

/// The view of a value, or the empty object where there is no value.
pub open spec fn view_or_empty(value: Option<Json>) -> JsonView {
    match value {
        Some(v) => v@,
        None => JsonView::Object(Seq::empty()),
    }
}

/// The record from which the details of a video are read: the
/// `playerMicroformatRenderer` of the response's `microformat`, with the
/// response's `videoDetails` merged into it. What the response lacks counts
/// as an empty object.
pub open spec fn details_view(player_response: Json) -> JsonView {
    merged(
        view_or_empty(
            match player_response.member("microformat"@) {
                Some(microformat) => microformat.member("playerMicroformatRenderer"@),
                None => None,
            },
        ),
        view_or_empty(player_response.member("videoDetails"@)),
    )
}

/// The description of the record `data` can be read: where it has no
/// `shortDescription` and its `description` has runs, the runs are a list.
pub open spec fn view_description_is_readable(data: JsonView) -> bool {
    view_member(data, "shortDescription"@) is None ==> match view_member(data, "description"@) {
        Some(description) => match view_member(description, "runs"@) {
            Some(runs) => runs is Array,
            None => true,
        },
        None => true,
    }
}

/// A copy of `value`, or the empty object where there is no value.
fn copy_or_empty(value: Option<&Json>) -> (r: Json)
    ensures
        r@ == view_or_empty(
            match value {
                Some(v) => Some(*v),
                None => None,
            },
        ),
{
    match value {
        Some(v) => v.clone(),
        None => {
            let r = Json::Object(Vec::new());
            assert(r@->Object_0 =~= Seq::empty());
            r
        },
    }
}

/// The record from which the details of the video of `player_response` are
/// read.
pub fn details_record(player_response: &Json) -> (data: Json)
    ensures
        data@ == details_view(*player_response),
{
    let renderer = match player_response.get("microformat") {
        Some(microformat) => microformat.get("playerMicroformatRenderer"),
        None => None,
    };
    let mut data = copy_or_empty(renderer);
    let details = copy_or_empty(player_response.get("videoDetails"));
    merge(&mut data, &details);
    data
}

/// The details of the video `id` with the media `media`, as
/// `player_response` gives them: they are read from its details record. The
/// description of that record must be readable.
pub fn clean_video_details(player_response: &Json, media: Json, id: String) -> (d: VideoDetails)
    requires
        view_description_is_readable(details_view(*player_response)),
    ensures
        exists|data: Json|
            data@ == details_view(*player_response) && #[trigger] is_details_of(
                d,
                data,
                media,
                id@,
            ),
{
    let data = details_record(player_response);
    proof {
        lemma_member_view(data, "shortDescription"@);
        lemma_member_view(data, "description"@);
        lemma_member_view(member_or_null(data, "description"@), "runs"@);
    }
    video_details(&data, media, id)
}

} // verus!
