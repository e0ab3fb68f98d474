use stream_resolver::extract::{
    extract_decipher, extract_functions, extract_ncode, DECIPHER_ENTRY, NCODE_ENTRY,
};

fn player_script() -> String {
    let mut s = String::new();
    s.push_str("var x=1;a.set(\"alr\",\"yes\");c&&(c=Wxa(decodeURIComponent(c)));\n");
    s.push_str("Wxa=function(a){a=a.split(\"\");Zz.rev(a,3);\nreturn a.join(\"\")};\n");
    s.push_str("var Zz={rev:function(a){a.reverse()},\n");
    s.push_str("sw:function(a,b){var c=a[0];a[0]=a[b%a.length];a[b%a.length]=c}};\n");
    s.push_str("a.D&&(b=a.get(\"n\"))&&(b=pla[0](b),a.set(\"n\",b));\n");
    s.push_str("var pla=[Qn];\n");
    s.push_str("Qn=function(a){var b=a.split(\"\");\nreturn b.join(\"\")+\"x\"};\n");
    s
}

fn decipher_snippet() -> String {
    let mut s = String::new();
    s.push_str("var Zz={rev:function(a){a.reverse()},");
    s.push_str("sw:function(a,b){var c=a[0];a[0]=a[b%a.length];a[b%a.length]=c}};");
    s.push_str("var Wxa=function(a){a=a.split(\"\");Zz.rev(a,3);return a.join(\"\")};");
    s.push_str("var decipher_signature=Wxa;");
    s
}

fn ncode_snippet() -> String {
    "var Qn=function(a){var b=a.split(\"\");return b.join(\"\")+\"x\"};var transform_n=Qn;"
        .to_string()
}

#[test]
fn extract_decipher_joins_helper_and_function() {
    assert_eq!(extract_decipher(&player_script()), Some(decipher_snippet()));
}

#[test]
fn extract_ncode_resolves_the_name_through_the_array() {
    assert_eq!(extract_ncode(&player_script()), Some(ncode_snippet()));
}

#[test]
fn extract_ncode_takes_a_plain_name_as_it_is() {
    let body = "x&&(b=a.get(\"n\"))&&(b=pla(b));pla=function(a){return [a]};";
    assert_eq!(
        extract_ncode(body),
        Some("var pla=function(a){return [a]};var transform_n=pla;".to_string())
    );
}

#[test]
fn extract_functions_lists_decipher_first() {
    assert_eq!(extract_functions(player_script()), vec![decipher_snippet(), ncode_snippet()]);
}

#[test]
fn extract_functions_finds_nothing_in_other_text() {
    assert_eq!(extract_functions("function f(){}".to_string()), vec![String::new(), String::new()]);
    assert_eq!(extract_functions(String::new()), vec![String::new(), String::new()]);
}

#[test]
fn extract_functions_keeps_each_snippet_in_its_place() {
    let body = "x&&(b=a.get(\"n\"))&&(b=pla(b));pla=function(a){return a};";
    assert_eq!(
        extract_functions(body.to_string()),
        vec![String::new(), "var pla=function(a){return a};var transform_n=pla;".to_string()]
    );
    let other =
        "a.set(\"alr\",\"yes\");c&&(c=Wxa(decodeURIComponent(c)));Wxa=function(a){return a};";
    assert_eq!(
        extract_functions(other.to_string()),
        vec![
            ";var Wxa=function(a){return a};var decipher_signature=Wxa;".to_string(),
            String::new()
        ]
    );
}

#[test]
fn extract_decipher_needs_the_definition() {
    let body = "a.set(\"alr\",\"yes\");c&&(c=Wxa(decodeURIComponent(c)));";
    assert_eq!(extract_decipher(body), None);
}

#[test]
fn extract_decipher_needs_a_balanced_body() {
    let body = "a.set(\"alr\",\"yes\");c&&(c=Wxa(decodeURIComponent(c)));Wxa=function(a){return a";
    assert_eq!(extract_decipher(body), None);
}

#[test]
fn extract_decipher_works_without_a_helper() {
    let body = "a.set(\"alr\",\"yes\");c&&(c=Wxa(decodeURIComponent(c)));Wxa=function(a){return a};";
    assert_eq!(
        extract_decipher(body),
        Some(";var Wxa=function(a){return a};var decipher_signature=Wxa;".to_string())
    );
}

#[test]
fn extract_decipher_leaves_out_a_helper_that_is_not_defined() {
    let mut body = String::new();
    body.push_str("a.set(\"alr\",\"yes\");c&&(c=Wxa(decodeURIComponent(c)));");
    body.push_str("Wxa=function(a){a=a.split(\"\");Zz.rev(a);return a};");
    assert_eq!(
        extract_decipher(&body),
        Some(
            ";var Wxa=function(a){a=a.split(\"\");Zz.rev(a);return a};var decipher_signature=Wxa;"
                .to_string()
        )
    );
}

#[test]
fn extract_decipher_needs_a_balanced_helper() {
    let mut body = String::new();
    body.push_str("a.set(\"alr\",\"yes\");c&&(c=Wxa(decodeURIComponent(c)));");
    body.push_str("Wxa=function(a){a=a.split(\"\");Zz.rev(a);return a};");
    body.push_str("var Zz={rev:function(a){a.reverse()}");
    assert_eq!(extract_decipher(&body), None);
}

#[test]
fn every_snippet_defines_its_entry_point() {
    let decipher = extract_decipher(&player_script()).unwrap();
    assert!(decipher.ends_with(&format!("var {}=Wxa;", DECIPHER_ENTRY)));
    let ncode = extract_ncode(&player_script()).unwrap();
    assert!(ncode.ends_with(&format!("var {}=Qn;", NCODE_ENTRY)));
    assert_eq!(DECIPHER_ENTRY, "decipher_signature");
    assert_eq!(NCODE_ENTRY, "transform_n");
}
