use std::cell::RefCell;
use stream_resolver::decipher::{
    decipher, decipher_with, n_argument, ncode, ncode_with, set_download_url, signature_argument,
    InvocationError,
};
use stream_resolver::extract::{DECIPHER_ENTRY, NCODE_ENTRY};
use stream_resolver::format::Format;

const CIPHER: &str =
    "s=ABC&sp=sig&url=https%3A%2F%2Fexample.com%2Fvideoplayback%3Fid%3D1";
const PLAIN: &str = "https://example.com/videoplayback?id=1";

fn failing(_snippet: &str, _entry: &str, _argument: &str) -> Result<String, InvocationError> {
    Err(InvocationError { message: "no engine".to_string() })
}

fn echoing(snippet: &str, entry: &str, argument: &str) -> Result<String, InvocationError> {
    Ok(format!("{}:{}:{}", snippet, entry, argument))
}

#[test]
fn signature_argument_is_the_s_component() {
    assert_eq!(signature_argument(CIPHER, "snippet"), Some("ABC".to_string()));
}

#[test]
fn signature_argument_needs_a_snippet_and_an_s() {
    assert_eq!(signature_argument(CIPHER, ""), None);
    assert_eq!(signature_argument("url=https%3A%2F%2Fexample.com%2F", "snippet"), None);
}

#[test]
fn decipher_with_writes_the_signature_into_the_named_parameter() {
    assert_eq!(
        decipher_with(CIPHER, "snippet", Some("XYZ".to_string())),
        "https://example.com/videoplayback?id=1&sig=XYZ"
    );
}

#[test]
fn decipher_with_defaults_to_the_signature_parameter() {
    let cipher = "s=ABC&url=https%3A%2F%2Fexample.com%2Fvideoplayback%3Fid%3D1";
    assert_eq!(
        decipher_with(cipher, "snippet", Some("XYZ".to_string())),
        "https://example.com/videoplayback?id=1&signature=XYZ"
    );
}

#[test]
fn decipher_with_replaces_a_parameter_that_is_there() {
    let cipher = "s=ABC&sp=sig&url=https%3A%2F%2Fexample.com%2Fv%3Fsig%3Dold%26id%3D1";
    assert_eq!(
        decipher_with(cipher, "snippet", Some("XYZ".to_string())),
        "https://example.com/v?sig=XYZ&id=1"
    );
}

#[test]
fn decipher_with_falls_back_to_the_plain_url() {
    assert_eq!(decipher_with(CIPHER, "snippet", None), PLAIN);
    assert_eq!(decipher_with(CIPHER, "", Some("XYZ".to_string())), PLAIN);
    let unsigned = "url=https%3A%2F%2Fexample.com%2Fvideoplayback%3Fid%3D1";
    assert_eq!(decipher_with(unsigned, "snippet", Some("XYZ".to_string())), PLAIN);
}

#[test]
fn decipher_with_returns_the_input_without_a_url_component() {
    assert_eq!(decipher_with("abc=1", "snippet", None), "abc=1");
    assert_eq!(decipher_with("s=ABC", "snippet", None), "s=ABC");
}

#[test]
fn decipher_with_falls_back_where_the_url_does_not_parse() {
    assert_eq!(decipher_with("s=ABC&url=nonsense", "snippet", Some("XYZ".to_string())), "nonsense");
    assert_eq!(decipher_with("s=ABC", "snippet", Some("XYZ".to_string())), "s=ABC");
}

#[test]
fn decipher_asks_the_invoker_for_the_signature() {
    assert_eq!(
        decipher(CIPHER, "snippet", &echoing),
        "https://example.com/videoplayback?id=1&sig=snippet%3Adecipher_signature%3AABC"
    );
}

#[test]
fn decipher_falls_back_when_the_invoker_fails() {
    assert_eq!(decipher(CIPHER, "snippet", &failing), PLAIN);
}

#[test]
fn decipher_does_not_ask_without_a_snippet() {
    let never = |_: &str, _: &str, _: &str| -> Result<String, InvocationError> {
        panic!("asked")
    };
    assert_eq!(decipher(CIPHER, "", &never), PLAIN);
}

#[test]
fn n_argument_is_the_n_component() {
    assert_eq!(
        n_argument("https://example.com/videoplayback?id=1&n=abc&x=2", "snippet"),
        Some("abc".to_string())
    );
    assert_eq!(n_argument("https://example.com/videoplayback?id=1&x=2", "snippet"), None);
    assert_eq!(n_argument("https://example.com/videoplayback?id=1&n=abc&x=2", ""), None);
}

#[test]
fn n_argument_is_found_wherever_n_stands_in_the_query() {
    assert_eq!(
        n_argument("https://example.com/videoplayback?n=abc&x=2", "snippet"),
        Some("abc".to_string())
    );
    assert_eq!(
        n_argument("https://example.com/videoplayback?x=2&n=abc", "snippet"),
        Some("abc".to_string())
    );
    assert_eq!(
        n_argument("https://example.com/videoplayback?x=2&n", "snippet"),
        Some(String::new())
    );
    assert_eq!(
        n_argument("https://example.com/videoplayback?n=first&n=second", "snippet"),
        Some("first".to_string())
    );
}

#[test]
fn n_argument_is_looked_up_in_the_query_of_a_url_only() {
    assert_eq!(n_argument("n=abc&x=2", "snippet"), None);
    assert_eq!(n_argument("https://example.com/n=abc&x=2", "snippet"), None);
    assert_eq!(n_argument("https://example.com/v?nn=abc&an=2", "snippet"), None);
    assert_eq!(n_argument("", "snippet"), None);
}

#[test]
fn n_argument_is_looked_up_in_the_decoded_url() {
    assert_eq!(
        n_argument("https://example.com/v?id=1%26n=abc", "snippet"),
        Some("abc".to_string())
    );
}

#[test]
fn ncode_with_rewrites_the_n_parameter_in_place() {
    assert_eq!(
        ncode_with(
            "https://example.com/videoplayback?id=1&n=abc&x=2",
            "snippet",
            Some("NEW".to_string())
        ),
        "https://example.com/videoplayback?id=1&n=NEW&x=2"
    );
}

#[test]
fn ncode_with_leaves_the_url_unchanged_without_a_result() {
    let url = "https://example.com/videoplayback?id=1&n=abc&x=2";
    assert_eq!(ncode_with(url, "snippet", None), url);
    assert_eq!(ncode_with(url, "", Some("NEW".to_string())), url);
    let other = "https://example.com/videoplayback?id=1&x=2";
    assert_eq!(ncode_with(other, "snippet", Some("NEW".to_string())), other);
}

#[test]
fn ncode_with_does_not_add_an_n_parameter() {
    assert_eq!(
        ncode_with("https://example.com/v?id=1%26n=abc", "snippet", Some("NEW".to_string())),
        "https://example.com/v?id=1%26n%3Dabc"
    );
}

#[test]
fn ncode_asks_the_invoker_for_the_value() {
    assert_eq!(
        ncode("https://example.com/videoplayback?id=1&n=abc", "snippet", &echoing),
        "https://example.com/videoplayback?id=1&n=snippet%3Atransform_n%3Aabc"
    );
}

#[test]
fn ncode_leaves_the_url_unchanged_when_the_invoker_fails() {
    let url = "https://example.com/videoplayback?id=1&n=abc";
    assert_eq!(ncode(url, "snippet", &failing), url);
}

#[test]
fn ncode_transforms_an_n_that_stands_first() {
    assert_eq!(
        ncode("https://example.com/videoplayback?n=abc&id=1", "snippet", &echoing),
        "https://example.com/videoplayback?n=snippet%3Atransform_n%3Aabc&id=1"
    );
}

#[test]
fn the_invoker_is_asked_for_the_entry_points() {
    let asked: RefCell<Vec<(String, String, String)>> = RefCell::new(Vec::new());
    let recording = |snippet: &str, entry: &str, argument: &str| -> Result<String, InvocationError> {
        asked.borrow_mut().push((snippet.to_string(), entry.to_string(), argument.to_string()));
        Ok("R".to_string())
    };
    let cipher = "s=S&url=https%3A%2F%2Fexample.com%2Fv%3Fa%3D1%26n%3DN";
    let mut format = Format { cipher: Some(cipher.to_string()), ..Format::default() };
    let functions = vec!["D".to_string(), "T".to_string()];
    assert_eq!(
        set_download_url(&mut format, functions, &recording),
        "https://example.com/v?a=1&n=R&signature=R"
    );
    assert_eq!(
        asked.into_inner(),
        vec![
            ("D".to_string(), DECIPHER_ENTRY.to_string(), "S".to_string()),
            ("T".to_string(), NCODE_ENTRY.to_string(), "N".to_string()),
        ]
    );
}

#[test]
fn set_download_url_keeps_a_plain_url_when_the_n_transform_fails() {
    let url = "https://example.com/videoplayback?id=1&n=abc&x=2";
    let mut format = Format { url: Some(url.to_string()), ..Format::default() };
    let functions = vec!["decipher".to_string(), "transform".to_string()];
    assert_eq!(set_download_url(&mut format, functions, &failing), url);
    assert_eq!(format.url, Some(url.to_string()));
}

#[test]
fn set_download_url_transforms_a_plain_url() {
    let mut format = Format {
        url: Some("https://example.com/videoplayback?id=1&n=abc".to_string()),
        cipher: Some(CIPHER.to_string()),
        ..Format::default()
    };
    let functions = vec!["d".to_string(), "t".to_string()];
    let resolved = "https://example.com/videoplayback?id=1&n=t%3Atransform_n%3Aabc";
    assert_eq!(set_download_url(&mut format, functions, &echoing), resolved);
    assert_eq!(format.url, Some(resolved.to_string()));
    assert_eq!(format.cipher, None);
    assert_eq!(format.signature_cipher, None);
}

#[test]
fn set_download_url_deciphers_then_transforms() {
    let cipher = "s=ABC&sp=sig&url=https%3A%2F%2Fexample.com%2Fvideoplayback%3Fid%3D1%26n%3Dabc";
    let mut format = Format { signature_cipher: Some(cipher.to_string()), ..Format::default() };
    let functions = vec!["d".to_string(), "t".to_string()];
    let resolved = "https://example.com/videoplayback?id=1&n=t%3Atransform_n%3Aabc&sig=d%3Adecipher_signature%3AABC";
    assert_eq!(set_download_url(&mut format, functions, &echoing), resolved);
    assert_eq!(format.url, Some(resolved.to_string()));
    assert_eq!(format.signature_cipher, None);
}

#[test]
fn set_download_url_prefers_signature_cipher_to_cipher() {
    let mut format = Format {
        signature_cipher: Some("url=https%3A%2F%2Fexample.com%2Fnew".to_string()),
        cipher: Some("url=https%3A%2F%2Fexample.com%2Fold".to_string()),
        ..Format::default()
    };
    assert_eq!(set_download_url(&mut format, Vec::new(), &failing), "https://example.com/new");
    let mut older = Format {
        cipher: Some("url=https%3A%2F%2Fexample.com%2Fold".to_string()),
        ..Format::default()
    };
    assert_eq!(set_download_url(&mut older, Vec::new(), &failing), "https://example.com/old");
}

#[test]
fn set_download_url_falls_back_to_the_plain_url_of_a_cipher() {
    let mut format = Format { cipher: Some(CIPHER.to_string()), ..Format::default() };
    let functions = vec!["d".to_string(), "t".to_string()];
    assert_eq!(set_download_url(&mut format, functions, &failing), PLAIN);
    assert_eq!(format.url, Some(PLAIN.to_string()));
    assert_eq!(format.cipher, None);
}

#[test]
fn set_download_url_gives_a_format_without_any_url_an_empty_one() {
    let mut format = Format::default();
    assert_eq!(set_download_url(&mut format, Vec::new(), &failing), "");
    assert_eq!(format.url, Some(String::new()));
}

#[test]
fn set_download_url_returns_the_url_that_the_format_holds() {
    let mut format = Format { url: Some("https://example.com".to_string()), ..Format::default() };
    assert_eq!(set_download_url(&mut format, Vec::new(), &failing), "https://example.com");
    assert_eq!(format.url, Some("https://example.com".to_string()));
    let mut upper = Format { url: Some("HTTPS://EXAMPLE.COM/a?n=1".to_string()), ..Format::default() };
    let functions = vec!["d".to_string(), "t".to_string()];
    assert_eq!(set_download_url(&mut upper, functions, &failing), "HTTPS://EXAMPLE.COM/a?n=1");
    assert_eq!(upper.url, Some("HTTPS://EXAMPLE.COM/a?n=1".to_string()));
    let mut odd = Format { url: Some("no url".to_string()), ..Format::default() };
    assert_eq!(set_download_url(&mut odd, Vec::new(), &echoing), "no url");
}
