use stream_resolver::decipher::InvocationError;
use stream_resolver::format::Format;
use stream_resolver::json::Json;
use stream_resolver::normalize::{normalize_format, parse_video_formats, stamp};

fn text(s: &str) -> Json {
    Json::Text(s.to_string())
}

fn object(members: Vec<(&str, Json)>) -> Json {
    Json::Object(members.into_iter().map(|(k, v)| (k.to_string(), v)).collect())
}

fn failing(_snippet: &str, _entry: &str, _argument: &str) -> Result<String, InvocationError> {
    Err(InvocationError { message: "no engine".to_string() })
}

fn appending(_snippet: &str, _entry: &str, argument: &str) -> Result<String, InvocationError> {
    Ok(format!("{}1", argument))
}

fn muxed() -> Format {
    Format {
        url: Some("https://example.com/videoplayback?id=1".to_string()),
        quality_label: Some("720p".to_string()),
        audio_quality: Some("AUDIO_QUALITY_MEDIUM".to_string()),
        mime_type: Some("video/mp4; codecs=\"avc1.64001F, mp4a.40.2\"".to_string()),
        bitrate: Some(1000),
        ..Format::default()
    }
}

#[test]
fn stamp_derives_the_fields_of_a_muxed_format() {
    let mut format = muxed();
    stamp(&mut format, "https://example.com/videoplayback?id=1".to_string());
    assert!(format.has_video);
    assert!(format.has_audio);
    assert_eq!(format.container, Some("mp4".to_string()));
    assert_eq!(format.codecs, Some("avc1.64001F, mp4a.40.2".to_string()));
    assert_eq!(format.video_codec, Some("avc1.64001F".to_string()));
    assert_eq!(format.audio_codec, Some("mp4a.40.2".to_string()));
    assert!(!format.is_live);
    assert!(!format.is_hls);
    assert!(!format.is_dash_mpd);
    assert_eq!(format.url, Some("https://example.com/videoplayback?id=1".to_string()));
    assert_eq!(format.bitrate, Some(1000));
}

#[test]
fn stamp_tells_video_only_from_audio_only() {
    let mut video = Format {
        quality_label: Some("1080p".to_string()),
        mime_type: Some("video/webm; codecs=\"vp9\"".to_string()),
        ..Format::default()
    };
    stamp(&mut video, "https://example.com/v".to_string());
    assert!(video.has_video);
    assert!(!video.has_audio);
    assert_eq!(video.container, Some("webm".to_string()));
    assert_eq!(video.codecs, Some("vp9".to_string()));
    assert_eq!(video.video_codec, Some("vp9".to_string()));
    assert_eq!(video.audio_codec, None);

    let mut audio = Format {
        audio_bitrate: Some(128),
        mime_type: Some("audio/webm; codecs=\"opus\"".to_string()),
        ..Format::default()
    };
    stamp(&mut audio, "https://example.com/a".to_string());
    assert!(!audio.has_video);
    assert!(audio.has_audio);
    assert_eq!(audio.video_codec, None);
    assert_eq!(audio.audio_codec, Some("opus".to_string()));
}

#[test]
fn stamp_takes_the_last_of_three_codecs_for_audio() {
    let mut format = Format {
        quality_label: Some("360p".to_string()),
        audio_bitrate: Some(96),
        mime_type: Some("video/3gpp; codecs=\"mp4v.20.3, x, mp4a.40.2\"".to_string()),
        ..Format::default()
    };
    stamp(&mut format, "https://example.com/v".to_string());
    assert_eq!(format.container, Some("3gpp".to_string()));
    assert_eq!(format.video_codec, Some("mp4v.20.3".to_string()));
    assert_eq!(format.audio_codec, Some("mp4a.40.2".to_string()));
}

#[test]
fn stamp_leaves_out_what_the_mime_type_does_not_give() {
    let mut format = Format {
        quality_label: Some("360p".to_string()),
        mime_type: Some("video".to_string()),
        ..Format::default()
    };
    stamp(&mut format, "https://example.com/v".to_string());
    assert_eq!(format.container, None);
    assert_eq!(format.codecs, None);
    assert_eq!(format.video_codec, None);

    let mut bare = Format::default();
    stamp(&mut bare, "https://example.com/v".to_string());
    assert!(!bare.has_video);
    assert!(!bare.has_audio);
    assert_eq!(bare.container, None);
}

#[test]
fn stamp_takes_the_container_between_the_slashes() {
    let mut format = Format { mime_type: Some("a/b/c; d/e".to_string()), ..Format::default() };
    stamp(&mut format, String::new());
    assert_eq!(format.container, Some("b".to_string()));
}

#[test]
fn stamp_reads_live_hls_and_dash_off_the_url() {
    let mut hls = Format::default();
    stamp(&mut hls, "https://example.com/api/manifest/hls_variant/id/1".to_string());
    assert!(hls.is_hls);
    assert!(!hls.is_dash_mpd);
    assert!(!hls.is_live);

    let mut playlist = Format::default();
    stamp(&mut playlist, "https://example.com/api/manifest/hls_playlist/id/1".to_string());
    assert!(playlist.is_hls);

    let mut other = Format::default();
    stamp(&mut other, "https://example.com/api/manifest/hls_other/id/1".to_string());
    assert!(!other.is_hls);

    let mut dash = Format::default();
    stamp(&mut dash, "https://example.com/api/manifest/dash/id/1".to_string());
    assert!(dash.is_dash_mpd);
    assert!(!dash.is_hls);

    let mut live = Format::default();
    stamp(&mut live, "https://example.com/v?source=yt_live_broadcast&x=1".to_string());
    assert!(live.is_live);

    let mut path = Format::default();
    stamp(&mut path, "https://example.com/source/yt_live_broadcast/x".to_string());
    assert!(path.is_live);

    let mut longer = Format::default();
    stamp(&mut longer, "https://example.com/v?source=yt_live_broadcasts".to_string());
    assert!(!longer.is_live);

    let mut inside = Format::default();
    stamp(&mut inside, "https://example.com/v?resource=yt_live_broadcast".to_string());
    assert!(!inside.is_live);
}

#[test]
fn stamp_removes_the_cipher_fields_and_keeps_the_extras() {
    let mut format = Format {
        cipher: Some("c".to_string()),
        signature_cipher: Some("s".to_string()),
        extras: vec![("itag".to_string(), Json::Integer(18))],
        ..Format::default()
    };
    stamp(&mut format, "https://example.com/v".to_string());
    assert_eq!(format.cipher, None);
    assert_eq!(format.signature_cipher, None);
    assert_eq!(format.extras, vec![("itag".to_string(), Json::Integer(18))]);
}

#[test]
fn normalize_format_resolves_and_stamps() {
    let mut format = Format {
        signature_cipher: Some(
            "s=AB&url=https%3A%2F%2Fexample.com%2Fapi%2Fmanifest%2Fdash%2Fx%3Fa%3D1%26n%3D7"
                .to_string(),
        ),
        quality_label: Some("144p".to_string()),
        ..Format::default()
    };
    let functions = vec!["d".to_string(), "t".to_string()];
    normalize_format(&mut format, &functions, &appending);
    assert_eq!(
        format.url,
        Some("https://example.com/api/manifest/dash/x?a=1&n=71&signature=AB1".to_string())
    );
    assert!(format.is_dash_mpd);
    assert!(format.has_video);
    assert_eq!(format.signature_cipher, None);
}

#[test]
fn normalizing_keeps_the_text_of_a_url_that_nothing_transforms() {
    let mut format = Format { url: Some("HTTPS://EXAMPLE.COM".to_string()), ..Format::default() };
    normalize_format(&mut format, &vec!["d".to_string(), "t".to_string()], &failing);
    assert_eq!(format.url, Some("HTTPS://EXAMPLE.COM".to_string()));
}

#[test]
fn normalizing_again_changes_neither_url_nor_flags() {
    let functions = vec!["d".to_string(), "t".to_string()];
    let mut once = muxed();
    normalize_format(&mut once, &functions, &failing);
    let mut twice = once.clone();
    normalize_format(&mut twice, &functions, &failing);
    assert_eq!(twice.url, once.url);
    assert_eq!(twice.has_video, once.has_video);
    assert_eq!(twice.has_audio, once.has_audio);
    assert_eq!(twice, once);
}

#[test]
fn normalizing_again_transforms_n_again() {
    let functions = vec!["d".to_string(), "t".to_string()];
    let mut once = Format {
        url: Some("https://example.com/v?a=1&n=7".to_string()),
        ..Format::default()
    };
    normalize_format(&mut once, &functions, &appending);
    assert_eq!(once.url, Some("https://example.com/v?a=1&n=71".to_string()));
    let mut twice = once.clone();
    normalize_format(&mut twice, &functions, &appending);
    assert_eq!(twice.url, Some("https://example.com/v?a=1&n=711".to_string()));
}

fn player_response(formats: Json, adaptive: Json) -> Json {
    object(vec![
        ("videoDetails", object(vec![("videoId", text("abc"))])),
        ("streamingData", object(vec![("formats", formats), ("adaptiveFormats", adaptive)])),
    ])
}

#[test]
fn parse_video_formats_lists_muxed_formats_first() {
    let info = player_response(
        Json::Array(vec![object(vec![
            ("itag", Json::Integer(18)),
            ("url", text("https://example.com/videoplayback?id=1")),
            ("qualityLabel", text("720p")),
            ("audioQuality", text("AUDIO_QUALITY_MEDIUM")),
            ("mimeType", text("video/mp4; codecs=\"avc1.64001F, mp4a.40.2\"")),
            ("bitrate", Json::Integer(1000)),
            ("contentLength", text("12345")),
            ("approxDurationMs", text("1000")),
        ])]),
        Json::Array(vec![
            object(vec![
                ("url", text("https://example.com/a?n=1")),
                ("audioBitrate", Json::Integer(128)),
                ("mimeType", text("audio/mp4; codecs=\"mp4a.40.2\"")),
            ]),
            object(vec![
                ("cipher", text("url=https%3A%2F%2Fexample.com%2Fc")),
                ("qualityLabel", text("1080p")),
            ]),
        ]),
    );
    let functions = vec!["d".to_string(), "t".to_string()];
    let formats = parse_video_formats(&info, functions, &failing).unwrap();
    assert_eq!(formats.len(), 3);
    assert_eq!(formats[0].url, Some("https://example.com/videoplayback?id=1".to_string()));
    assert!(formats[0].has_video && formats[0].has_audio);
    assert_eq!(formats[0].bitrate, Some(1000));
    assert_eq!(formats[0].content_length, Some(text("12345")));
    assert_eq!(formats[0].container, Some("mp4".to_string()));
    assert_eq!(
        formats[0].extras,
        vec![
            ("itag".to_string(), Json::Integer(18)),
            ("approxDurationMs".to_string(), text("1000")),
        ]
    );
    assert_eq!(formats[1].url, Some("https://example.com/a?n=1".to_string()));
    assert!(!formats[1].has_video && formats[1].has_audio);
    assert_eq!(formats[1].audio_codec, Some("mp4a.40.2".to_string()));
    assert_eq!(formats[2].url, Some("https://example.com/c".to_string()));
    assert!(formats[2].has_video && !formats[2].has_audio);
    assert_eq!(formats[2].cipher, None);
}

#[test]
fn parse_video_formats_needs_streaming_data_with_both_lists() {
    let none = object(vec![("videoDetails", Json::Null)]);
    assert!(parse_video_formats(&none, Vec::new(), &failing).is_none());
    assert!(parse_video_formats(&Json::Null, Vec::new(), &failing).is_none());
    let half = object(vec![("streamingData", object(vec![("formats", Json::Array(Vec::new()))]))]);
    assert!(parse_video_formats(&half, Vec::new(), &failing).is_none());
    let other = object(vec![(
        "streamingData",
        object(vec![("adaptiveFormats", Json::Array(Vec::new()))]),
    )]);
    assert!(parse_video_formats(&other, Vec::new(), &failing).is_none());
    let wrong = player_response(Json::Array(Vec::new()), text("none"));
    assert!(parse_video_formats(&wrong, Vec::new(), &failing).is_none());
    let empty = player_response(Json::Array(Vec::new()), Json::Array(Vec::new()));
    assert_eq!(parse_video_formats(&empty, Vec::new(), &failing), Some(Vec::new()));
}

#[test]
fn from_json_reads_the_fields_of_a_record() {
    let record = object(vec![
        ("url", text("u")),
        ("signatureCipher", text("sc")),
        ("cipher", text("c")),
        ("qualityLabel", text("144p")),
        ("mimeType", text("m")),
        ("bitrate", Json::Integer(1)),
        ("audioBitrate", Json::Integer(2)),
        ("audioQuality", text("aq")),
        ("contentLength", Json::Integer(3)),
        ("hasVideo", Json::Bool(true)),
        ("hasAudio", Json::Bool(true)),
        ("container", text("co")),
        ("codecs", text("cd")),
        ("videoCodec", text("vc")),
        ("audioCodec", text("ac")),
        ("isLive", Json::Bool(true)),
        ("isHLS", Json::Bool(true)),
        ("isDashMPD", Json::Bool(true)),
        ("fps", Json::Integer(30)),
        ("colorInfo", object(vec![("primaries", text("BT709"))])),
    ]);
    let format = Format::from_json(&record);
    assert_eq!(
        format,
        Format {
            url: Some("u".to_string()),
            signature_cipher: Some("sc".to_string()),
            cipher: Some("c".to_string()),
            quality_label: Some("144p".to_string()),
            mime_type: Some("m".to_string()),
            bitrate: Some(1),
            audio_bitrate: Some(2),
            audio_quality: Some("aq".to_string()),
            content_length: Some(Json::Integer(3)),
            has_video: true,
            has_audio: true,
            container: Some("co".to_string()),
            codecs: Some("cd".to_string()),
            video_codec: Some("vc".to_string()),
            audio_codec: Some("ac".to_string()),
            is_live: true,
            is_hls: true,
            is_dash_mpd: true,
            extras: vec![
                ("fps".to_string(), Json::Integer(30)),
                ("colorInfo".to_string(), object(vec![("primaries", text("BT709"))])),
            ],
        }
    );
}

#[test]
fn from_json_lets_a_member_pass_that_its_field_cannot_hold() {
    let members = vec![
        ("url", Json::Integer(1)),
        ("qualityLabel", Json::Null),
        ("bitrate", text("12")),
        ("audioBitrate", Json::Number("1.5".to_string())),
        ("hasVideo", text("yes")),
        ("hasAudio", Json::Bool(false)),
        ("isHLS", Json::Integer(1)),
        ("codecs", Json::Array(Vec::new())),
    ];
    let record = object(members.clone());
    let format = Format::from_json(&record);
    assert_eq!(format.url, None);
    assert_eq!(format.quality_label, None);
    assert_eq!(format.bitrate, None);
    assert_eq!(format.audio_bitrate, None);
    assert!(!format.has_video && !format.has_audio && !format.is_hls);
    assert_eq!(format.codecs, None);
    assert_eq!(
        format.extras,
        members.iter().map(|(k, v)| (k.to_string(), v.clone())).collect::<Vec<_>>()
    );
    let back = format.to_json();
    for (name, value) in &members {
        assert_eq!(back.get(name), Some(value));
    }
    assert_eq!(Format::from_json(&back), format);
    assert_eq!(Format::from_json(&Json::Null), Format::default());
    assert_eq!(Format::from_json(&object(Vec::new())), Format::default());
}

#[test]
fn from_json_holds_a_flag_that_is_set() {
    let record = object(vec![("isLive", Json::Bool(false)), ("isDashMPD", Json::Bool(true))]);
    let format = Format::from_json(&record);
    assert!(format.is_dash_mpd && !format.is_live);
    assert_eq!(format.extras, vec![("isLive".to_string(), Json::Bool(false))]);
    assert_eq!(format.to_json().get("isLive"), Some(&Json::Bool(false)));
    assert_eq!(format.to_json().get("isDashMPD"), Some(&Json::Bool(true)));
}

#[test]
fn every_member_of_a_record_passes_through() {
    let record = object(vec![
        ("itag", Json::Integer(18)),
        ("url", text("https://example.com/v")),
        ("bitrate", Json::Number("1e6".to_string())),
        ("contentLength", text("12345")),
        ("fps", Json::Integer(30)),
        ("colorInfo", object(vec![("primaries", text("BT709"))])),
    ]);
    let back = Format::from_json(&record).to_json();
    match &record {
        Json::Object(members) => {
            for (name, value) in members {
                assert_eq!(back.get(name), Some(value));
            }
        }
        _ => panic!("no object"),
    }
}

#[test]
fn normalizing_removes_cipher_members_of_any_type() {
    let mut format = Format::from_json(&object(vec![
        ("cipher", Json::Integer(1)),
        ("signatureCipher", Json::Null),
        ("itag", Json::Integer(18)),
        ("bitrate", text("high")),
    ]));
    normalize_format(&mut format, &Vec::new(), &failing);
    assert_eq!(format.cipher, None);
    assert_eq!(format.signature_cipher, None);
    assert_eq!(
        format.extras,
        vec![("itag".to_string(), Json::Integer(18)), ("bitrate".to_string(), text("high"))]
    );
    let record = format.to_json();
    assert_eq!(record.get("cipher"), None);
    assert_eq!(record.get("signatureCipher"), None);
    assert_eq!(record.get("url"), Some(&text("")));
    assert_eq!(record.get("bitrate"), Some(&text("high")));
}

#[test]
fn to_json_writes_the_fields_that_hold_a_value() {
    let format = Format {
        url: Some("u".to_string()),
        quality_label: Some("144p".to_string()),
        bitrate: Some(7),
        has_video: true,
        is_hls: true,
        extras: vec![("fps".to_string(), Json::Integer(30))],
        ..Format::default()
    };
    assert_eq!(
        format.to_json(),
        object(vec![
            ("url", text("u")),
            ("qualityLabel", text("144p")),
            ("bitrate", Json::Integer(7)),
            ("hasVideo", Json::Bool(true)),
            ("isHLS", Json::Bool(true)),
            ("fps", Json::Integer(30)),
        ])
    );
    assert_eq!(Format::default().to_json(), object(Vec::new()));
}

#[test]
fn to_json_and_from_json_undo_each_other() {
    let format = Format {
        url: Some("u".to_string()),
        signature_cipher: Some("sc".to_string()),
        cipher: Some("c".to_string()),
        quality_label: Some("144p".to_string()),
        mime_type: Some("m".to_string()),
        bitrate: Some(1),
        audio_bitrate: Some(2),
        audio_quality: Some("aq".to_string()),
        content_length: Some(Json::Integer(3)),
        has_video: true,
        has_audio: true,
        container: Some("co".to_string()),
        codecs: Some("cd".to_string()),
        video_codec: Some("vc".to_string()),
        audio_codec: Some("ac".to_string()),
        is_live: true,
        is_hls: true,
        is_dash_mpd: true,
        extras: vec![("fps".to_string(), Json::Integer(30))],
    };
    assert_eq!(Format::from_json(&format.to_json()), format);
    assert_eq!(Format::from_json(&Format::default().to_json()), Format::default());
    let once = muxed();
    assert_eq!(Format::from_json(&once.to_json()), once);
}
