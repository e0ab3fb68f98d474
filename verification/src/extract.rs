//! Extraction of the decipher function and of the n-transform function from
//! the text of a player script.

use vstd::prelude::*;
use crate::scan::{between_range, between_spec, cut_after_js_spec, cut_chars};
use crate::text::{
    chars_of, contains_text, copy_range, find, first_occurrence, lemma_first_occurrence_from,
    occurs_at, push_all, push_range, push_str, string_of,
};

verus! {

/// What stands in a player script just before the name of the decipher
/// function.
pub const DECIPHER_NAME_LEFT: &'static str = "a.set(\"alr\",\"yes\");c&&(c=";

/// What stands just behind the name of the decipher function.
pub const DECIPHER_NAME_RIGHT: &'static str = "(decodeURIC";

/// What stands in the decipher function just before the name of its helper
/// object.
pub const HELPER_NAME_LEFT: &'static str = "a=a.split(\"\");";

/// What stands just behind the name of the helper object.
pub const HELPER_NAME_RIGHT: &'static str = ".";

/// What stands in a player script just before the name of the n-transform
/// function.
pub const NCODE_NAME_LEFT: &'static str = "&&(b=a.get(\"n\"))&&(b=";

/// What stands just behind the name of the n-transform function.
pub const NCODE_NAME_RIGHT: &'static str = "(b)";

/// What follows a function's name where the function is defined.
pub const FUNCTION_HEAD: &'static str = "=function(a)";

/// The name under which the decipher function is called. Every decipher
/// snippet defines it.
pub const DECIPHER_ENTRY: &'static str = "decipher_signature";

/// The name under which the n-transform function is called. Every
/// n-transform snippet defines it.
pub const NCODE_ENTRY: &'static str = "transform_n";

/// The statement that defines the entry point `entry` of a snippet as the
/// function `name`: `var entry=name;`.
pub open spec fn entry_definition(entry: Seq<char>, name: Seq<char>) -> Seq<char> {
    "var "@ + entry + "="@ + name + ";"@
}

/// `s` without its line feeds.
pub open spec fn strip_newlines(s: Seq<char>) -> Seq<char> {
    s.filter(|c: char| c != '\n')
}

/// What `strip_newlines` leaves holds no line feed.
pub proof fn lemma_stripped_has_no_newline(s: Seq<char>)
    ensures
        forall|i: int| 0 <= i < strip_newlines(s).len() ==> strip_newlines(s)[i] != '\n',
{
    let keep = |c: char| c != '\n';
    assert forall|i: int| 0 <= i < s.filter(keep).len() implies s.filter(keep)[i] != '\n' by {
        s.lemma_filter_pred(keep, i);
    }
}

/// The part of `s` before the first `sep`, or all of `s` where there is none.
pub open spec fn before_first(s: Seq<char>, sep: Seq<char>) -> Seq<char> {
    match first_occurrence(s, sep) {
        Some(i) => s.take(i),
        None => s,
    }
}

/// The definition `var name=function(a){...}` of the function `name`, taken
/// from where `body` first reads `name=function(a)`. `None` where `body` does
/// not read so, or no balanced region follows.
pub open spec fn function_definition(body: Seq<char>, name: Seq<char>) -> Option<Seq<char>> {
    let head = name + FUNCTION_HEAD@;
    match first_occurrence(body, head) {
        None => None,
        Some(i) => match cut_after_js_spec(body.skip(i + head.len())) {
            None => None,
            Some(region) => Some("var "@ + head + region),
        },
    }
}

/// The definition `var name={...}` of the helper object that the decipher
/// function `caller` uses. Empty where `caller` names no helper or `body` does
/// not define it; `None` where its definition is not a balanced region.
pub open spec fn helper_definition(body: Seq<char>, caller: Seq<char>) -> Option<Seq<char>> {
    let name = between_spec(caller, HELPER_NAME_LEFT@, HELPER_NAME_RIGHT@);
    let head = "var "@ + name + "={"@;
    if name.len() == 0 {
        Some(Seq::empty())
    } else {
        match first_occurrence(body, head) {
            None => Some(Seq::empty()),
            Some(i) => match cut_after_js_spec(body.skip(i + head.len() - 1)) {
                None => None,
                Some(region) => Some("var "@ + name + "="@ + region),
            },
        }
    }
}

/// The decipher snippet of a player script: the helper object's definition, a
/// semicolon, the decipher function's definition, a semicolon, and the
/// definition of the entry point `DECIPHER_ENTRY` as that function, all
/// without line feeds. `None` where the script does not name the function,
/// does not define it, or a definition is not a balanced region.
pub open spec fn decipher_snippet(body: Seq<char>) -> Option<Seq<char>> {
    let name = between_spec(body, DECIPHER_NAME_LEFT@, DECIPHER_NAME_RIGHT@);
    if name.len() == 0 {
        None
    } else {
        match function_definition(body, name) {
            None => None,
            Some(definition) => match helper_definition(body, definition) {
                None => None,
                Some(helper) => Some(
                    strip_newlines(
                        helper + ";"@ + definition + ";"@ + entry_definition(
                            DECIPHER_ENTRY@,
                            name,
                        ),
                    ),
                ),
            },
        }
    }
}

/// The name of the n-transform function in a player script. Where the script
/// calls it through an array, `list[0]`, the name is what the script reads
/// between `list=[` and `]`.
pub open spec fn ncode_name(body: Seq<char>) -> Seq<char> {
    let called = between_spec(body, NCODE_NAME_LEFT@, NCODE_NAME_RIGHT@);
    if contains_text(called, "["@) {
        between_spec(body, before_first(called, "["@) + "=["@, "]"@)
    } else {
        called
    }
}

/// The n-transform snippet of a player script: the function's definition, a
/// semicolon, and the definition of the entry point `NCODE_ENTRY` as that
/// function, without line feeds. `None` where the script does not name the
/// function, does not define it, or its definition is not a balanced region.
pub open spec fn ncode_snippet(body: Seq<char>) -> Option<Seq<char>> {
    let name = ncode_name(body);
    if name.len() == 0 {
        None
    } else {
        match function_definition(body, name) {
            None => None,
            Some(definition) => Some(
                strip_newlines(definition + ";"@ + entry_definition(NCODE_ENTRY@, name)),
            ),
        }
    }
}

/// A decipher snippet ends with the definition of its entry point: what the
/// invoker is asked to call is what the snippet defines.
pub proof fn lemma_decipher_snippet_defines_entry(body: Seq<char>)
    ensures
        decipher_snippet(body) matches Some(s) ==> {
            let name = between_spec(body, DECIPHER_NAME_LEFT@, DECIPHER_NAME_RIGHT@);
            let defined = strip_newlines(entry_definition(DECIPHER_ENTRY@, name));
            s.len() >= defined.len() && s.skip(s.len() - defined.len()) == defined
        },
{
    if decipher_snippet(body) is Some {
        let name = between_spec(body, DECIPHER_NAME_LEFT@, DECIPHER_NAME_RIGHT@);
        let definition = function_definition(body, name).unwrap();
        let helper = helper_definition(body, definition).unwrap();
        let before = helper + ";"@ + definition + ";"@;
        let entry = entry_definition(DECIPHER_ENTRY@, name);
        Seq::filter_distributes_over_add(before, entry, |c: char| c != '\n');
        assert(strip_newlines(before + entry).skip(strip_newlines(before).len() as int)
            =~= strip_newlines(entry));
    }
}

/// An n-transform snippet ends with the definition of its entry point.
pub proof fn lemma_ncode_snippet_defines_entry(body: Seq<char>)
    ensures
        ncode_snippet(body) matches Some(s) ==> {
            let defined = strip_newlines(entry_definition(NCODE_ENTRY@, ncode_name(body)));
            s.len() >= defined.len() && s.skip(s.len() - defined.len()) == defined
        },
{
    if ncode_snippet(body) is Some {
        let name = ncode_name(body);
        let definition = function_definition(body, name).unwrap();
        let before = definition + ";"@;
        let entry = entry_definition(NCODE_ENTRY@, name);
        Seq::filter_distributes_over_add(before, entry, |c: char| c != '\n');
        assert(strip_newlines(before + entry).skip(strip_newlines(before).len() as int)
            =~= strip_newlines(entry));
    }
}

/// `snippet`, or the empty text where there is none.
pub open spec fn snippet_or_empty(snippet: Option<Seq<char>>) -> Seq<char> {
    match snippet {
        Some(s) => s,
        None => Seq::empty(),
    }
}

/// The two snippets of a player script, each in its place: first the decipher
/// snippet, then the n-transform snippet. The place of a snippet that the
/// script does not yield holds the empty text.
pub open spec fn extract_functions_spec(body: Seq<char>) -> Seq<Seq<char>> {
    seq![snippet_or_empty(decipher_snippet(body)), snippet_or_empty(ncode_snippet(body))]
}

/// `s` without its line feeds.
pub fn without_newlines(s: &Vec<char>) -> (r: Vec<char>)
    ensures
        r@ == strip_newlines(s@),
{
    let ghost keep = |c: char| c != '\n';
    let mut r: Vec<char> = Vec::new();
    let mut i: usize = 0;
    proof {
        reveal(Seq::filter);
        assert(s@.take(0).filter(keep) =~= Seq::<char>::empty());
    }
    while i < s.len()
        invariant
            i <= s.len(),
            keep == |c: char| c != '\n',
            r@ == s@.take(i as int).filter(keep),
        decreases s.len() - i,
    {
        proof {
            s@.take(i as int).lemma_filter_push(s@[i as int], keep);
            assert(s@.take(i as int).push(s@[i as int]) =~= s@.take(i + 1));
        }
        if s[i] != '\n' {
            r.push(s[i]);
        }
        i += 1;
    }
    assert(s@.take(s.len() as int) =~= s@);
    r
}

/// The balanced region of `body` that starts at `from`.
fn region_at(body: &Vec<char>, from: usize) -> (r: Option<Vec<char>>)
    requires
        from <= body.len(),
    ensures
        match r {
            Some(region) => cut_after_js_spec(body@.skip(from as int)) == Some(region@),
            None => cut_after_js_spec(body@.skip(from as int)) is None,
        },
{
    let rest = copy_range(body, from, body.len());
    assert(rest@ == body@.skip(from as int));
    match cut_chars(&rest) {
        None => None,
        Some(end) => {
            let region = copy_range(&rest, 0, end);
            assert(region@ == rest@.take(end as int));
            Some(region)
        },
    }
}

/// The definition of the function `name` in `body`.
fn definition_of(body: &Vec<char>, name: &Vec<char>) -> (r: Option<Vec<char>>)
    ensures
        match r {
            Some(d) => function_definition(body@, name@) == Some(d@),
            None => function_definition(body@, name@) is None,
        },
{
    let mut head: Vec<char> = Vec::new();
    push_all(&mut head, name);
    push_str(&mut head, FUNCTION_HEAD);
    assert(head@ == name@ + FUNCTION_HEAD@);
    proof {
        lemma_first_occurrence_from(body@, head@, 0);
    }
    match find(body, &head) {
        None => None,
        Some(i) => {
            assert(occurs_at(body@, head@, i as int));
            assert(i + head.len() <= body.len());
            match region_at(body, i + head.len()) {
                None => None,
                Some(region) => {
                    let mut d: Vec<char> = Vec::new();
                    push_str(&mut d, "var ");
                    push_all(&mut d, &head);
                    push_all(&mut d, &region);
                    assert(d@ == "var "@ + head@ + region@);
                    Some(d)
                },
            }
        },
    }
}

/// The definition of the helper object that `caller` uses.
fn helper_of(body: &Vec<char>, caller: &Vec<char>) -> (r: Option<Vec<char>>)
    ensures
        match r {
            Some(d) => helper_definition(body@, caller@) == Some(d@),
            None => helper_definition(body@, caller@) is None,
        },
{
    let left = chars_of(HELPER_NAME_LEFT);
    let right = chars_of(HELPER_NAME_RIGHT);
    let (from, to) = between_range(caller, &left, &right);
    if from == to {
        return Some(Vec::new());
    }
    let mut head: Vec<char> = Vec::new();
    push_str(&mut head, "var ");
    push_range(&mut head, caller, from, to);
    push_str(&mut head, "={");
    let ghost name = caller@.subrange(from as int, to as int);
    assert(head@ == "var "@ + name + "={"@);
    proof {
        reveal_strlit("={");
        lemma_first_occurrence_from(body@, head@, 0);
    }
    match find(body, &head) {
        None => Some(Vec::new()),
        Some(i) => {
            assert(occurs_at(body@, head@, i as int));
            assert(i + head.len() <= body.len());
            assert(head.len() >= 1);
            match region_at(body, i + head.len() - 1) {
                None => None,
                Some(region) => {
                    let mut d: Vec<char> = Vec::new();
                    push_str(&mut d, "var ");
                    push_range(&mut d, caller, from, to);
                    push_str(&mut d, "=");
                    push_all(&mut d, &region);
                    assert(d@ == "var "@ + name + "="@ + region@);
                    Some(d)
                },
            }
        },
    }
}

/// Appends the definition of the entry point `entry` as the function `name`.
fn push_entry(all: &mut Vec<char>, entry: &str, name: &Vec<char>)
    ensures
        final(all)@ == old(all)@ + entry_definition(entry@, name@),
{
    let mut text: Vec<char> = Vec::new();
    push_str(&mut text, "var ");
    push_str(&mut text, entry);
    push_str(&mut text, "=");
    push_all(&mut text, name);
    push_str(&mut text, ";");
    assert(text@ =~= entry_definition(entry@, name@));
    push_all(all, &text);
}

/// The decipher snippet of the script `body`.
fn decipher_chars(body: &Vec<char>) -> (r: Option<Vec<char>>)
    ensures
        match r {
            Some(s) => decipher_snippet(body@) == Some(s@),
            None => decipher_snippet(body@) is None,
        },
{
    let left = chars_of(DECIPHER_NAME_LEFT);
    let right = chars_of(DECIPHER_NAME_RIGHT);
    let (from, to) = between_range(body, &left, &right);
    if from == to {
        return None;
    }
    let name = copy_range(body, from, to);
    match definition_of(body, &name) {
        None => None,
        Some(definition) => match helper_of(body, &definition) {
            None => None,
            Some(helper) => {
                let mut all: Vec<char> = Vec::new();
                push_all(&mut all, &helper);
                push_str(&mut all, ";");
                push_all(&mut all, &definition);
                push_str(&mut all, ";");
                push_entry(&mut all, DECIPHER_ENTRY, &name);
                Some(without_newlines(&all))
            },
        },
    }
}

/// The name of the n-transform function in the script `body`.
fn ncode_name_chars(body: &Vec<char>) -> (r: Vec<char>)
    ensures
        r@ == ncode_name(body@),
{
    let left = chars_of(NCODE_NAME_LEFT);
    let right = chars_of(NCODE_NAME_RIGHT);
    let (from, to) = between_range(body, &left, &right);
    let called = copy_range(body, from, to);
    let bracket = chars_of("[");
    proof {
        lemma_first_occurrence_from(called@, bracket@, 0);
    }
    match find(&called, &bracket) {
        None => called,
        Some(i) => {
            assert(occurs_at(called@, bracket@, i as int));
            let mut list: Vec<char> = Vec::new();
            push_range(&mut list, &called, 0, i);
            push_str(&mut list, "=[");
            assert(called@.subrange(0, i as int) == called@.take(i as int));
            assert(list@ == before_first(called@, "["@) + "=["@);
            let end = chars_of("]");
            let (a, b) = between_range(body, &list, &end);
            copy_range(body, a, b)
        },
    }
}

/// The n-transform snippet of the script `body`.
fn ncode_chars(body: &Vec<char>) -> (r: Option<Vec<char>>)
    ensures
        match r {
            Some(s) => ncode_snippet(body@) == Some(s@),
            None => ncode_snippet(body@) is None,
        },
{
    let name = ncode_name_chars(body);
    if name.len() == 0 {
        return None;
    }
    match definition_of(body, &name) {
        None => None,
        Some(definition) => {
            let mut all: Vec<char> = Vec::new();
            push_all(&mut all, &definition);
            push_str(&mut all, ";");
            push_entry(&mut all, NCODE_ENTRY, &name);
            Some(without_newlines(&all))
        },
    }
}

/// The decipher snippet of a player script: the definitions of the decipher
/// function and of the helper object that it uses, ready to be run. `None`
/// where the script does not hold them in the expected form.
pub fn extract_decipher(body: &str) -> (r: Option<String>)
    ensures
        match r {
            Some(s) => decipher_snippet(body@) == Some(s@),
            None => decipher_snippet(body@) is None,
        },
        r matches Some(s) ==> forall|i: int| 0 <= i < s@.len() ==> s@[i] != '\n',
{
    proof {
        if decipher_snippet(body@) is Some {
            let name = between_spec(body@, DECIPHER_NAME_LEFT@, DECIPHER_NAME_RIGHT@);
            let definition = function_definition(body@, name).unwrap();
            let helper = helper_definition(body@, definition).unwrap();
            lemma_stripped_has_no_newline(
                helper + ";"@ + definition + ";"@ + entry_definition(DECIPHER_ENTRY@, name),
            );
        }
    }
    let chars = chars_of(body);
    match decipher_chars(&chars) {
        None => None,
        Some(s) => Some(string_of(&s)),
    }
}

/// The n-transform snippet of a player script: the definition of the
/// n-transform function, ready to be run. `None` where the script does not
/// hold it in the expected form.
pub fn extract_ncode(body: &str) -> (r: Option<String>)
    ensures
        match r {
            Some(s) => ncode_snippet(body@) == Some(s@),
            None => ncode_snippet(body@) is None,
        },
        r matches Some(s) ==> forall|i: int| 0 <= i < s@.len() ==> s@[i] != '\n',
{
    proof {
        if ncode_snippet(body@) is Some {
            let definition = function_definition(body@, ncode_name(body@)).unwrap();
            lemma_stripped_has_no_newline(
                definition + ";"@ + entry_definition(NCODE_ENTRY@, ncode_name(body@)),
            );
        }
    }
    let chars = chars_of(body);
    match ncode_chars(&chars) {
        None => None,
        Some(s) => Some(string_of(&s)),
    }
}

/// The two snippets that a player script yields, each in its place: first the
/// decipher snippet, then the n-transform snippet. The place of a snippet
/// that the script does not yield holds the empty text, which stands for no
/// snippet wherever snippets are used.
pub fn extract_functions(body: String) -> (functions: Vec<String>)
    ensures
        functions.deep_view() == extract_functions_spec(body@),
        functions.len() == 2,
{
    let chars = chars_of(body.as_str());
    let mut functions: Vec<String> = Vec::new();
    match decipher_chars(&chars) {
        None => {
            functions.push(String::new());
        },
        Some(s) => {
            functions.push(string_of(&s));
        },
    }
    match ncode_chars(&chars) {
        None => {
            functions.push(String::new());
        },
        Some(s) => {
            functions.push(string_of(&s));
        },
    }
    assert(functions.deep_view() =~= extract_functions_spec(body@));
    functions
}

} // verus!
