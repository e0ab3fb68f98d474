use stream_resolver::player::{get_html5player, html5player_url, player_path_of};
use stream_resolver::video_id::{
    find_id_source, first_chars_of, get_url_video_id, get_video_id, trim, valid_query_domain_list,
    validate_id,
};

#[test]
fn trim_leaves_out_the_white_space_at_both_ends() {
    assert_eq!(trim("  a b \n"), "a b");
    assert_eq!(trim("a"), "a");
    assert_eq!(trim(""), "");
    assert_eq!(trim(" \t\r\n"), "");
    assert_eq!(trim("\u{a0}x\u{3000}"), "x");
    assert_eq!(trim("\u{200b}x"), "\u{200b}x");
    assert_eq!(trim(" é ü "), "é ü");
    for s in ["", " ", "x", " x", "x ", " x y ", "\u{2028}x\u{85}", "\u{0}x", "_ _"] {
        assert_eq!(trim(s), s.trim());
    }
}

#[test]
fn validate_id_wants_eleven_characters_of_the_alphabet() {
    assert!(validate_id("dQw4w9WgXcQ".to_string()));
    assert!(validate_id("a-b_c-d_e-f".to_string()));
    assert!(!validate_id("dQw4w9WgXc".to_string()));
    assert!(!validate_id("dQw4w9WgXcQQ".to_string()));
    assert!(!validate_id("dQw4w9WgXc!".to_string()));
    assert!(!validate_id("dQw4w 9WgXcQ".to_string()));
    assert!(!validate_id(String::new()));
}

#[test]
fn validate_id_leaves_white_space_around_the_id_aside() {
    assert!(validate_id("  dQw4w9WgXcQ\n".to_string()));
    assert!(validate_id("\tdQw4w9WgXcQ".to_string()));
}

#[test]
fn get_video_id_takes_an_id_as_it_is() {
    assert_eq!(get_video_id("dQw4w9WgXcQ"), Some("dQw4w9WgXcQ".to_string()));
    assert_eq!(get_video_id(" dQw4w9WgXcQ "), Some(" dQw4w9WgXcQ ".to_string()));
}

#[test]
fn get_video_id_reads_the_query_of_a_watch_address() {
    assert_eq!(
        get_video_id("https://www.youtube.com/watch?v=dQw4w9WgXcQ"),
        Some("dQw4w9WgXcQ".to_string())
    );
    assert_eq!(
        get_video_id("http://m.youtube.com/watch?list=x&v=dQw4w9WgXcQ&t=1"),
        Some("dQw4w9WgXcQ".to_string())
    );
    assert_eq!(
        get_video_id("  https://music.youtube.com/watch?v=dQw4w9WgXcQ  "),
        Some("dQw4w9WgXcQ".to_string())
    );
}

#[test]
fn get_video_id_takes_the_last_v_and_its_first_eleven_characters() {
    assert_eq!(
        get_video_id("https://www.youtube.com/watch?v=aaaaaaaaaaa&v=bbbbbbbbbbb"),
        Some("bbbbbbbbbbb".to_string())
    );
    assert_eq!(
        get_video_id("https://www.youtube.com/watch?v=dQw4w9WgXcQ123"),
        Some("dQw4w9WgXcQ".to_string())
    );
    assert_eq!(get_video_id("https://www.youtube.com/watch?v=short"), None);
    assert_eq!(get_video_id("https://www.youtube.com/watch?v=dQw4w9WgX!Q"), None);
}

#[test]
fn get_video_id_wants_a_host_that_names_videos_in_the_query() {
    assert_eq!(get_video_id("https://example.com/watch?v=dQw4w9WgXcQ"), None);
    assert_eq!(get_video_id("https://youtu.be/dQw4w9WgXcQ"), None);
    assert_eq!(get_video_id("https://www.youtube.com/watch?x=dQw4w9WgXcQ"), None);
    assert_eq!(
        valid_query_domain_list(),
        vec![
            "youtube.com",
            "www.youtube.com",
            "m.youtube.com",
            "music.youtube.com",
            "gaming.youtube.com"
        ]
    );
}

#[test]
fn get_video_id_wants_an_id_or_a_web_address() {
    assert_eq!(get_video_id("not a url"), None);
    assert_eq!(get_video_id(""), None);
    assert_eq!(get_video_id("ftp://www.youtube.com/watch?v=dQw4w9WgXcQ"), None);
    assert_eq!(get_video_id("https://"), None);
}

#[test]
fn get_url_video_id_reads_an_address_without_looking_at_its_scheme() {
    assert_eq!(
        get_url_video_id("ftp://www.youtube.com/watch?v=dQw4w9WgXcQ"),
        Some("dQw4w9WgXcQ".to_string())
    );
    assert_eq!(get_url_video_id("watch?v=dQw4w9WgXcQ"), None);
}

#[test]
fn get_url_video_id_finds_no_id_in_the_host() {
    assert_eq!(get_url_video_id("https:\\//\\//youtu.be\\//dQw4w9WgXcQ"), None);
    assert_eq!(get_url_video_id("https:\\//\\//www.youtube.com\\//embed\\//dQw4w9WgXcQ"), None);
}

#[test]
fn get_url_video_id_takes_the_query_where_the_path_names_a_video_too() {
    assert_eq!(
        get_url_video_id("https:\\//\\//www.youtube.com\\//embed\\//x?v=dQw4w9WgXcQ"),
        Some("dQw4w9WgXcQ".to_string())
    );
}

#[test]
fn get_html5player_takes_the_js_url() {
    let body = "<html>{\"a\":1,\"jsUrl\":\"/s/player/abc/player_ias.vflset/base.js\",\"b\":2}";
    assert_eq!(
        get_html5player(body),
        Some("/s/player/abc/player_ias.vflset/base.js".to_string())
    );
}

#[test]
fn get_html5player_is_empty_for_the_script_tag() {
    let body = "<script src=\"/s/base.js\" name=\"player_ias\\//base\" >";
    assert_eq!(get_html5player(body), Some(String::new()));
    let typed =
        "<script  src=\"/s/base.js\" type=\"text\\//javascript\" name=\"player_ias\\//base\">";
    assert_eq!(get_html5player(typed), Some(String::new()));
}

#[test]
fn get_html5player_is_none_without_a_match() {
    assert_eq!(get_html5player("<html></html>"), None);
    assert_eq!(get_html5player("\"jsUrl\":\"\""), None);
    assert_eq!(get_html5player(""), None);
}

#[test]
fn html5player_url_puts_the_platform_before_the_path() {
    assert_eq!(
        html5player_url("s/player/abc/base.js"),
        "https://www.youtube.com/s/player/abc/base.js"
    );
    assert_eq!(html5player_url(""), "https://www.youtube.com/");
}

fn pairs(list: &[(&str, &str)]) -> Vec<(String, String)> {
    list.iter().map(|(k, v)| (k.to_string(), v.to_string())).collect()
}

#[test]
fn find_id_source_takes_the_last_v_of_a_host_that_names_videos_so() {
    let query = pairs(&[("v", "first"), ("t", "1"), ("v", "last")]);
    let host = Some("www.youtube.com".to_string());
    assert_eq!(find_id_source(&query, &host, false), Some("last".to_string()));
    assert_eq!(find_id_source(&query, &host, true), Some("last".to_string()));
    assert_eq!(find_id_source(&query, &None, false), Some("last".to_string()));
    assert_eq!(find_id_source(&query, &Some("example.com".to_string()), false), None);
    assert_eq!(find_id_source(&pairs(&[("t", "1")]), &host, false), None);
    assert_eq!(find_id_source(&Vec::new(), &None, false), None);
}

#[test]
fn find_id_source_takes_a_piece_of_the_host_where_the_path_names_the_video() {
    let none = Vec::new();
    assert_eq!(
        find_id_source(&none, &Some("youtu.be".to_string()), true),
        Some(String::new())
    );
    assert_eq!(
        find_id_source(&none, &Some("a/b/c/d".to_string()), true),
        Some("c".to_string())
    );
    assert_eq!(find_id_source(&none, &Some("a/b".to_string()), true), Some(String::new()));
    assert_eq!(find_id_source(&none, &None, true), Some(String::new()));
}

#[test]
fn first_chars_of_cuts_a_longer_text() {
    assert_eq!(first_chars_of("abcdef".to_string(), 3), "abc");
    assert_eq!(first_chars_of("abc".to_string(), 3), "abc");
    assert_eq!(first_chars_of("ab".to_string(), 3), "ab");
    assert_eq!(first_chars_of("éüö".to_string(), 2), "éü");
    assert_eq!(first_chars_of("abc".to_string(), 0), "");
}

#[test]
fn player_path_of_takes_the_second_group_then_the_third() {
    let text = |s: &str| Some(s.to_string());
    assert_eq!(player_path_of(&vec![text("all"), text("one"), text("two")]), "two");
    assert_eq!(player_path_of(&vec![text("all"), text("one"), None]), "");
    assert_eq!(player_path_of(&vec![text("all"), None, None, text("three")]), "three");
    assert_eq!(player_path_of(&vec![text("all"), None, text("two"), text("three")]), "two");
    assert_eq!(player_path_of(&vec![text("all")]), "");
    assert_eq!(player_path_of(&Vec::new()), "");
}
