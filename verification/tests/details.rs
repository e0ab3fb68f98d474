use stream_resolver::details::{
    clean_video_details, details_record, video_details, Embed, Thumbnail, VideoDetails,
};
use stream_resolver::json::Json;
use stream_resolver::number::{low_i32, parse_i64};

fn text(s: &str) -> Json {
    Json::Text(s.to_string())
}

fn object(members: Vec<(&str, Json)>) -> Json {
    Json::Object(members.into_iter().map(|(k, v)| (k.to_string(), v)).collect())
}

fn empty_details(id: &str) -> VideoDetails {
    VideoDetails {
        age_restricted: false,
        media: Json::Null,
        video_url: format!("https://www.youtube.com/watch?v={}", id),
        embed: Embed {
            flash_secure_url: String::new(),
            flash_url: String::new(),
            iframe_url: String::new(),
            height: 0,
            width: 0,
        },
        title: String::new(),
        description: String::new(),
        length_seconds: "0".to_string(),
        owner_profile_url: String::new(),
        external_channel_id: String::new(),
        is_family_safe: false,
        available_countries: Vec::new(),
        is_unlisted: false,
        has_ypc_metadata: false,
        view_count: "0".to_string(),
        category: String::new(),
        publish_date: String::new(),
        owner_channel_name: String::new(),
        upload_date: String::new(),
        video_id: "0".to_string(),
        keywords: Vec::new(),
        channel_id: String::new(),
        is_owner_viewing: false,
        is_crawlable: false,
        allow_ratings: false,
        is_private: false,
        is_unplugged_corpus: false,
        is_live_content: false,
        thumbnails: Vec::new(),
    }
}

#[test]
fn video_details_of_an_empty_record_are_the_defaults() {
    assert_eq!(video_details(&object(Vec::new()), Json::Null, "abc".to_string()), empty_details("abc"));
    assert_eq!(video_details(&Json::Null, Json::Null, String::new()), empty_details(""));
}

#[test]
fn video_details_reads_the_fields_of_the_record() {
    let data = object(vec![
        ("title", text("a title")),
        ("shortDescription", text("short")),
        ("description", object(vec![("simpleText", text("long"))])),
        ("lengthSeconds", text("212")),
        ("ownerProfileUrl", text("http://www.youtube.com/@owner")),
        ("externalChannelId", text("UC1")),
        ("isFamilySafe", Json::Bool(true)),
        ("availableCountries", Json::Array(vec![text("DE"), Json::Integer(1), text("TR")])),
        ("isUnlisted", Json::Bool(false)),
        ("hasYpcMetadata", text("true")),
        ("viewCount", text("1000")),
        ("category", text("Music")),
        ("publishDate", text("2009-10-24")),
        ("ownerChannelName", text("Owner")),
        ("uploadDate", text("2009-10-25")),
        ("videoId", text("dQw4w9WgXcQ")),
        ("keywords", Json::Array(vec![text("one"), text("two")])),
        ("channelId", text("UC2")),
        ("isOwnerViewing", Json::Bool(true)),
        ("isCrawlable", Json::Bool(true)),
        ("allowRatings", Json::Bool(true)),
        ("isPrivate", Json::Bool(true)),
        ("isUnpluggedCorpus", Json::Bool(true)),
        ("isLiveContent", Json::Bool(true)),
        (
            "embed",
            object(vec![
                ("flashSecureUrl", text("fs")),
                ("flashUrl", text("f")),
                ("iframeUrl", text("i")),
                ("height", text("720")),
                ("width", Json::Integer(1280)),
            ]),
        ),
        (
            "thumbnail",
            object(vec![(
                "thumbnails",
                Json::Array(vec![
                    object(vec![
                        ("url", text("t1")),
                        ("width", Json::Integer(120)),
                        ("height", text("90")),
                    ]),
                    object(vec![("url", Json::Null), ("width", text("wide"))]),
                    Json::Null,
                ]),
            )]),
        ),
    ]);
    let media = object(vec![("song", text("see youtube.com/t/community_guidelines"))]);
    let details = video_details(&data, media.clone(), "dQw4w9WgXcQ".to_string());
    assert_eq!(
        details,
        VideoDetails {
            age_restricted: true,
            media,
            video_url: "https://www.youtube.com/watch?v=dQw4w9WgXcQ".to_string(),
            embed: Embed {
                flash_secure_url: "fs".to_string(),
                flash_url: "f".to_string(),
                iframe_url: "i".to_string(),
                height: 720,
                width: 1280,
            },
            title: "a title".to_string(),
            description: "short".to_string(),
            length_seconds: "212".to_string(),
            owner_profile_url: "http://www.youtube.com/@owner".to_string(),
            external_channel_id: "UC1".to_string(),
            is_family_safe: true,
            available_countries: vec!["DE".to_string(), String::new(), "TR".to_string()],
            is_unlisted: false,
            has_ypc_metadata: false,
            view_count: "1000".to_string(),
            category: "Music".to_string(),
            publish_date: "2009-10-24".to_string(),
            owner_channel_name: "Owner".to_string(),
            upload_date: "2009-10-25".to_string(),
            video_id: "dQw4w9WgXcQ".to_string(),
            keywords: vec!["one".to_string(), "two".to_string()],
            channel_id: "UC2".to_string(),
            is_owner_viewing: true,
            is_crawlable: true,
            allow_ratings: true,
            is_private: true,
            is_unplugged_corpus: true,
            is_live_content: true,
            thumbnails: vec![
                Thumbnail { width: 120, height: 90, url: "t1".to_string() },
                Thumbnail { width: 0, height: 0, url: String::new() },
                Thumbnail { width: 0, height: 0, url: String::new() },
            ],
        }
    );
}

#[test]
fn video_details_falls_back_to_the_label_for_the_description() {
    let simple = object(vec![("description", object(vec![("simpleText", text("long"))]))]);
    assert_eq!(video_details(&simple, Json::Null, String::new()).description, "long");
    let runs = object(vec![(
        "description",
        object(vec![("runs", Json::Array(vec![object(vec![("text", text("first"))])]))]),
    )]);
    assert_eq!(video_details(&runs, Json::Null, String::new()).description, "first");
    let untyped = object(vec![("shortDescription", Json::Integer(1))]);
    assert_eq!(video_details(&untyped, Json::Null, String::new()).description, "");
}

#[test]
fn details_record_merges_the_video_details_into_the_microformat() {
    let response = object(vec![
        (
            "microformat",
            object(vec![(
                "playerMicroformatRenderer",
                object(vec![
                    ("title", object(vec![("simpleText", text("micro"))])),
                    ("category", text("Music")),
                    ("thumbnail", object(vec![("thumbnails", Json::Array(Vec::new()))])),
                ]),
            )]),
        ),
        (
            "videoDetails",
            object(vec![
                ("title", text("details")),
                ("videoId", text("dQw4w9WgXcQ")),
                ("thumbnail", object(vec![("more", Json::Bool(true))])),
            ]),
        ),
    ]);
    assert_eq!(
        details_record(&response),
        object(vec![
            ("title", text("details")),
            ("category", text("Music")),
            (
                "thumbnail",
                object(vec![("thumbnails", Json::Array(Vec::new())), ("more", Json::Bool(true))])
            ),
            ("videoId", text("dQw4w9WgXcQ")),
        ])
    );
    let details = clean_video_details(&response, Json::Null, "dQw4w9WgXcQ".to_string());
    assert_eq!(details.title, "details");
    assert_eq!(details.category, "Music");
    assert_eq!(details.video_id, "dQw4w9WgXcQ");
    assert_eq!(details.video_url, "https://www.youtube.com/watch?v=dQw4w9WgXcQ");
}

#[test]
fn details_record_counts_what_is_missing_as_empty() {
    assert_eq!(details_record(&Json::Null), object(Vec::new()));
    let only = object(vec![("videoDetails", object(vec![("title", text("t"))]))]);
    assert_eq!(details_record(&only), object(vec![("title", text("t"))]));
    let other = object(vec![("videoDetails", text("none"))]);
    assert_eq!(details_record(&other), text("none"));
    assert_eq!(clean_video_details(&Json::Null, Json::Null, "x".to_string()), empty_details("x"));
}

#[test]
fn low_i32_keeps_the_low_32_bits() {
    assert_eq!(low_i32(0), 0);
    assert_eq!(low_i32(720), 720);
    assert_eq!(low_i32(-1), -1);
    assert_eq!(low_i32(2147483647), 2147483647);
    assert_eq!(low_i32(2147483648), -2147483648);
    assert_eq!(low_i32(4294967296), 0);
    assert_eq!(low_i32(4294967297), 1);
    assert_eq!(low_i32(-2147483648), -2147483648);
    assert_eq!(low_i32(-2147483649), 2147483647);
    assert_eq!(low_i32(i64::MAX), -1);
    assert_eq!(low_i32(i64::MIN), 0);
    for v in [5_000_000_000i64, -5_000_000_000, 123_456_789_012_345, -98_765_432_109_876] {
        assert_eq!(low_i32(v), v as i32);
    }
}

#[test]
fn parse_i64_reads_a_sign_and_digits() {
    let parse = |s: &str| parse_i64(&s.chars().collect());
    assert_eq!(parse("0"), Some(0));
    assert_eq!(parse("-0"), Some(0));
    assert_eq!(parse("+15"), Some(15));
    assert_eq!(parse("-15"), Some(-15));
    assert_eq!(parse("0015"), Some(15));
    assert_eq!(parse("9223372036854775807"), Some(i64::MAX));
    assert_eq!(parse("9223372036854775808"), None);
    assert_eq!(parse("-9223372036854775808"), Some(i64::MIN));
    assert_eq!(parse("-9223372036854775809"), None);
    assert_eq!(parse(""), None);
    assert_eq!(parse("-"), None);
    assert_eq!(parse("+"), None);
    assert_eq!(parse("1 "), None);
    assert_eq!(parse("1.0"), None);
    assert_eq!(parse("--1"), None);
    for s in ["12", "-7", "+3", "x", "99999999999999999999", "٣"] {
        assert_eq!(parse(s), s.parse::<i64>().ok());
    }
}
