//! Resolution of a format's playable URL: the signature is deciphered and the
//! `n` parameter transformed by functions of the player script, which a
//! script invoker runs.

use vstd::prelude::*;
use crate::extract::{DECIPHER_ENTRY, NCODE_ENTRY};
use crate::format::{extras_without_cipher, without_cipher, Format, FormatView};
use crate::query::{
    component_text, component_value, find_component, has_component, pair_value, parse_query,
    percent_decode, percent_decoded, query_components, set_pair, text_of_component, url_pairs,
    url_query_pairs,
    url_replace_query, url_with_query, value_of_component, value_of_pair,
    with_value, with_value_set,
};

verus! {

/// Why a script invoker did not return a result.
#[derive(Debug, PartialEq, Eq)]
pub struct InvocationError {
    /// What the invoker reported.
    pub message: String,
}

/// What came of an invocation: the result, or `None` where it failed.
pub open spec fn outcome_of(r: Result<String, InvocationError>) -> Option<Seq<char>> {
    match r {
        Ok(s) => Some(s@),
        Err(_) => None,
    }
}

/// `outcome` is something that `invoke` may answer when it is asked to run
/// `snippet` and to call `entry` in it with `argument`.
pub open spec fn may_answer<F: Fn(&str, &str, &str) -> Result<String, InvocationError>>(
    invoke: &F,
    snippet: Seq<char>,
    entry: Seq<char>,
    argument: Seq<char>,
    outcome: Option<Seq<char>>,
) -> bool {
    exists|s: &str, e: &str, a: &str, r: Result<String, InvocationError>|
        s@ == snippet && e@ == entry && a@ == argument && #[trigger] call_ensures(
            invoke,
            (s, e, a),
            r,
        ) && outcome_of(r) == outcome
}

/// The plain URL in a cipher query string: its `url` component, or the whole
/// text where it has none or does not parse.
pub open spec fn plain_url(url: Seq<char>) -> Seq<char> {
    match query_components(url) {
        Some(cs) => if has_component(cs, "url"@) {
            component_text(cs, "url"@)
        } else {
            url
        },
        None => url,
    }
}

/// The scrambled signature that is to be handed to the decipher function: the
/// `s` component of the cipher query string. `None` where there is nothing to
/// decipher: the text does not parse, has no `s`, or no snippet is at hand.
pub open spec fn decipher_argument(url: Seq<char>, snippet: Seq<char>) -> Option<Seq<char>> {
    match query_components(url) {
        Some(cs) => if has_component(cs, "s"@) && snippet.len() > 0 {
            Some(component_text(cs, "s"@))
        } else {
            None
        },
        None => None,
    }
}

/// The query parameter that takes the signature: the `sp` component of the
/// cipher query string, or `signature`.
pub open spec fn signature_parameter(cs: Seq<(Seq<char>, Option<Seq<char>>)>) -> Seq<char> {
    match component_value(cs, "sp"@) {
        Some(name) => name,
        None => "signature"@,
    }
}

/// The `url` component of a cipher query string with `signature` written into
/// its signature parameter, added where it had none. `None` where the query
/// string or that URL does not parse.
pub open spec fn signed_url(url: Seq<char>, signature: Seq<char>) -> Option<Seq<char>> {
    match query_components(url) {
        None => None,
        Some(cs) => {
            let base = component_text(cs, "url"@);
            match url_query_pairs(base) {
                None => None,
                Some(pairs) => url_with_query(
                    base,
                    with_value_set(pairs, signature_parameter(cs), signature),
                ),
            }
        },
    }
}

/// The URL that a cipher query string stands for, given what came of calling
/// the decipher function. Where nothing was to be deciphered, the call failed
/// or the signed URL cannot be built, it is the plain URL.
pub open spec fn deciphered(url: Seq<char>, snippet: Seq<char>, outcome: Option<Seq<char>>) -> Seq<
    char,
> {
    if decipher_argument(url, snippet) is Some && outcome is Some && signed_url(
        url,
        outcome.unwrap(),
    ) is Some {
        signed_url(url, outcome.unwrap()).unwrap()
    } else {
        plain_url(url)
    }
}

/// The text in which the `n` parameter of a URL is looked up: the
/// percent-decoded URL, or the URL as it is where it does not decode.
pub open spec fn decoded_url(url: Seq<char>) -> Seq<char> {
    match percent_decoded(url) {
        Some(decoded) => decoded,
        None => url,
    }
}

/// The value that is to be handed to the n-transform function: the value of
/// the first `n` among the pairs of the query of the percent-decoded URL.
/// `None` where there is nothing to transform: the decoded text is no URL,
/// its query has no `n`, or no snippet is at hand.
pub open spec fn ncode_argument(url: Seq<char>, snippet: Seq<char>) -> Option<Seq<char>> {
    match url_query_pairs(decoded_url(url)) {
        Some(pairs) => if snippet.len() > 0 {
            pair_value(pairs, "n"@)
        } else {
            None
        },
        None => None,
    }
}

/// `url` with `value` written into its `n` parameter. `None` where the URL
/// does not parse.
pub open spec fn transformed_url(url: Seq<char>, value: Seq<char>) -> Option<Seq<char>> {
    match url_query_pairs(url) {
        None => None,
        Some(pairs) => url_with_query(url, with_value(pairs, "n"@, value)),
    }
}

/// The URL after the n-transform, given what came of calling the n-transform
/// function. Where nothing was to be transformed, the call failed or the URL
/// cannot be rebuilt, it is `url` unchanged.
pub open spec fn ncoded(url: Seq<char>, snippet: Seq<char>, outcome: Option<Seq<char>>) -> Seq<
    char,
> {
    if ncode_argument(url, snippet) is Some && outcome is Some && transformed_url(
        url,
        outcome.unwrap(),
    ) is Some {
        transformed_url(url, outcome.unwrap()).unwrap()
    } else {
        url
    }
}

/// The snippet at place `i` of `functions`; empty where there is none.
pub open spec fn snippet_at(functions: Seq<Seq<char>>, i: int) -> Seq<char> {
    if 0 <= i < functions.len() {
        functions[i]
    } else {
        Seq::empty()
    }
}

/// The text from which a format's URL is resolved: its `url`, else its
/// `signature_cipher`, else its `cipher`, else nothing.
pub open spec fn raw_url(f: FormatView) -> Seq<char> {
    match f.url {
        Some(u) => u,
        None => match f.signature_cipher {
            Some(c) => c,
            None => match f.cipher {
                Some(c) => c,
                None => Seq::empty(),
            },
        },
    }
}

/// The URL of a format before the n-transform: deciphered where the format
/// has no plain `url`, else that `url`.
pub open spec fn unciphered_url(f: FormatView, functions: Seq<Seq<char>>, signature: Option<Seq<char>>) -> Seq<
    char,
> {
    if f.url is None {
        deciphered(raw_url(f), snippet_at(functions, 0), signature)
    } else {
        raw_url(f)
    }
}

/// The resolved URL of a format, given what came of the two calls.
pub open spec fn resolved_url(
    f: FormatView,
    functions: Seq<Seq<char>>,
    signature: Option<Seq<char>>,
    n: Option<Seq<char>>,
) -> Seq<char> {
    ncoded(unciphered_url(f, functions, signature), snippet_at(functions, 1), n)
}

/// A format with a plain `url` keeps that URL where the n-transform gives no
/// result, whatever the snippets are.
pub proof fn lemma_failed_transform_keeps_url(
    f: FormatView,
    functions: Seq<Seq<char>>,
    signature: Option<Seq<char>>,
)
    requires
        f.url is Some,
    ensures
        resolved_url(f, functions, signature, None) == f.url.unwrap(),
{
}

/// `signature` is an answer that `invoke` may give to the decipher call that
/// resolving `f` makes, if it makes one.
pub open spec fn answers_decipher<F: Fn(&str, &str, &str) -> Result<String, InvocationError>>(
    invoke: &F,
    f: FormatView,
    functions: Seq<Seq<char>>,
    signature: Option<Seq<char>>,
) -> bool {
    f.url is None ==> match decipher_argument(raw_url(f), snippet_at(functions, 0)) {
        Some(argument) => may_answer(
            invoke,
            snippet_at(functions, 0),
            DECIPHER_ENTRY@,
            argument,
            signature,
        ),
        None => true,
    }
}

/// `n` is an answer that `invoke` may give to the n-transform call that
/// resolving `f` makes, if it makes one.
pub open spec fn answers_ncode<F: Fn(&str, &str, &str) -> Result<String, InvocationError>>(
    invoke: &F,
    f: FormatView,
    functions: Seq<Seq<char>>,
    signature: Option<Seq<char>>,
    n: Option<Seq<char>>,
) -> bool {
    match ncode_argument(unciphered_url(f, functions, signature), snippet_at(functions, 1)) {
        Some(argument) => may_answer(invoke, snippet_at(functions, 1), NCODE_ENTRY@, argument, n),
        None => true,
    }
}

/// The scrambled signature in the cipher query string `url`, where it is to be
/// deciphered with `snippet`.
pub fn signature_argument(url: &str, snippet: &str) -> (r: Option<String>)
    ensures
        r.deep_view() == decipher_argument(url@, snippet@),
{
    match parse_query(url) {
        None => None,
        Some(cs) => {
            if find_component(&cs, "s").is_some() && !snippet.is_empty() {
                Some(text_of_component(&cs, "s"))
            } else {
                None
            }
        },
    }
}

/// The plain URL in the cipher query string `url`.
fn plain_url_of(url: &str) -> (r: String)
    ensures
        r@ == plain_url(url@),
{
    match parse_query(url) {
        None => String::from_str(url),
        Some(cs) => {
            if find_component(&cs, "url").is_some() {
                text_of_component(&cs, "url")
            } else {
                String::from_str(url)
            }
        },
    }
}

/// The signed URL of the cipher query string `url`.
fn signed_url_of(url: &str, signature: &str) -> (r: Option<String>)
    ensures
        r.deep_view() == signed_url(url@, signature@),
{
    match parse_query(url) {
        None => None,
        Some(cs) => {
            let base = text_of_component(&cs, "url");
            let name = match value_of_component(&cs, "sp") {
                Some(name) => name,
                None => String::from_str("signature"),
            };
            match url_pairs(base.as_str()) {
                None => None,
                Some(pairs) => {
                    let signed = set_pair(&pairs, name.as_str(), signature, true);
                    url_replace_query(base.as_str(), &signed)
                },
            }
        },
    }
}

/// The URL that the cipher query string `url` stands for, where `outcome` is
/// what came of calling the decipher function: its result, or `None` where the
/// call failed or was not made.
pub fn decipher_with(url: &str, snippet: &str, outcome: Option<String>) -> (r: String)
    ensures
        r@ == deciphered(url@, snippet@, outcome.deep_view()),
        outcome is None ==> r@ == plain_url(url@),
{
    match outcome {
        None => plain_url_of(url),
        Some(signature) => {
            if signature_argument(url, snippet).is_none() {
                return plain_url_of(url);
            }
            match signed_url_of(url, signature.as_str()) {
                Some(signed) => signed,
                None => plain_url_of(url),
            }
        },
    }
}

/// The URL that the cipher query string `url` stands for. Where it holds a
/// scrambled signature and `snippet` is not empty, `invoke` is asked to call
/// the decipher function of `snippet` with it, and the result is written into
/// the URL; where that fails, the plain URL is returned.
pub fn decipher<F: Fn(&str, &str, &str) -> Result<String, InvocationError>>(
    url: &str,
    snippet: &str,
    invoke: &F,
) -> (r: String)
    requires
        forall|s: &str, e: &str, a: &str| call_requires(invoke, (s, e, a)),
    ensures
        exists|outcome: Option<Seq<char>>|
            {
                &&& decipher_argument(url@, snippet@) matches Some(argument) ==> may_answer(
                    invoke,
                    snippet@,
                    DECIPHER_ENTRY@,
                    argument,
                    outcome,
                )
                &&& r@ == #[trigger] deciphered(url@, snippet@, outcome)
            },
        decipher_argument(url@, snippet@) is None ==> r@ == plain_url(url@),
{
    match signature_argument(url, snippet) {
        None => {
            let r = decipher_with(url, snippet, None);
            assert(r@ == deciphered(url@, snippet@, None));
            r
        },
        Some(argument) => {
            let answer = invoke(snippet, DECIPHER_ENTRY, argument.as_str());
            let ghost outcome = outcome_of(answer);
            let given = match answer {
                Ok(signature) => Some(signature),
                Err(_) => None,
            };
            let r = decipher_with(url, snippet, given);
            assert(may_answer(invoke, snippet@, DECIPHER_ENTRY@, argument@, outcome));
            assert(r@ == deciphered(url@, snippet@, outcome));
            r
        },
    }
}

/// The value of the `n` parameter of `url`, where it is to be transformed with
/// `snippet`.
pub fn n_argument(url: &str, snippet: &str) -> (r: Option<String>)
    ensures
        r.deep_view() == ncode_argument(url@, snippet@),
{
    let decoded = match percent_decode(url) {
        Some(d) => d,
        None => String::from_str(url),
    };
    match url_pairs(decoded.as_str()) {
        None => None,
        Some(pairs) => {
            if !snippet.is_empty() {
                value_of_pair(&pairs, "n")
            } else {
                None
            }
        },
    }
}

/// `url` with `value` written into its `n` parameter.
fn transformed_url_of(url: &str, value: &str) -> (r: Option<String>)
    ensures
        r.deep_view() == transformed_url(url@, value@),
{
    match url_pairs(url) {
        None => None,
        Some(pairs) => {
            let changed = set_pair(&pairs, "n", value, false);
            url_replace_query(url, &changed)
        },
    }
}

/// `url` after the n-transform, where `outcome` is what came of calling the
/// n-transform function: its result, or `None` where the call failed or was
/// not made.
pub fn ncode_with(url: &str, snippet: &str, outcome: Option<String>) -> (r: String)
    ensures
        r@ == ncoded(url@, snippet@, outcome.deep_view()),
        outcome is None ==> r@ == url@,
{
    match outcome {
        None => String::from_str(url),
        Some(value) => {
            if n_argument(url, snippet).is_none() {
                return String::from_str(url);
            }
            match transformed_url_of(url, value.as_str()) {
                Some(changed) => changed,
                None => String::from_str(url),
            }
        },
    }
}

/// `url` after the n-transform. Where `url` has an `n` parameter and `snippet`
/// is not empty, `invoke` is asked to call the n-transform function of
/// `snippet` with its value, and the result is written in its place; where
/// that fails, `url` is returned unchanged.
pub fn ncode<F: Fn(&str, &str, &str) -> Result<String, InvocationError>>(
    url: &str,
    snippet: &str,
    invoke: &F,
) -> (r: String)
    requires
        forall|s: &str, e: &str, a: &str| call_requires(invoke, (s, e, a)),
    ensures
        exists|outcome: Option<Seq<char>>|
            {
                &&& ncode_argument(url@, snippet@) matches Some(argument) ==> may_answer(
                    invoke,
                    snippet@,
                    NCODE_ENTRY@,
                    argument,
                    outcome,
                )
                &&& r@ == #[trigger] ncoded(url@, snippet@, outcome)
            },
        ncode_argument(url@, snippet@) is None ==> r@ == url@,
{
    match n_argument(url, snippet) {
        None => {
            let r = ncode_with(url, snippet, None);
            assert(r@ == ncoded(url@, snippet@, None));
            r
        },
        Some(argument) => {
            let answer = invoke(snippet, NCODE_ENTRY, argument.as_str());
            let ghost outcome = outcome_of(answer);
            let given = match answer {
                Ok(value) => Some(value),
                Err(_) => None,
            };
            let r = ncode_with(url, snippet, given);
            assert(may_answer(invoke, snippet@, NCODE_ENTRY@, argument@, outcome));
            assert(r@ == ncoded(url@, snippet@, outcome));
            r
        },
    }
}

/// The snippet at place `i` of `functions`; empty where there is none.
fn snippet_of(functions: &Vec<String>, i: usize) -> (r: &str)
    ensures
        r@ == snippet_at(functions.deep_view(), i as int),
{
    if i < functions.len() {
        functions[i].as_str()
    } else {
        proof {
            reveal_strlit("");
            assert(""@ =~= Seq::<char>::empty());
        }
        ""
    }
}

/// Resolves the playable URL of `format`. The first of `functions` is the
/// decipher snippet, the second the n-transform snippet; an empty or missing
/// one is not used. A format without a plain `url` is deciphered from its
/// cipher query string; then the n-transform is applied. The format's `url`
/// becomes the resolved URL and its cipher fields are removed; every other
/// field stays as it is. Returned is
/// the resolved URL, the very text that the format now holds.
pub fn set_download_url<F: Fn(&str, &str, &str) -> Result<String, InvocationError>>(
    format: &mut Format,
    functions: Vec<String>,
    invoke: &F,
) -> (r: String)
    requires
        forall|s: &str, e: &str, a: &str| call_requires(invoke, (s, e, a)),
    ensures
        exists|signature: Option<Seq<char>>, n: Option<Seq<char>>|
            {
                &&& answers_decipher(invoke, old(format)@, functions.deep_view(), signature)
                &&& answers_ncode(invoke, old(format)@, functions.deep_view(), signature, n)
                &&& final(format)@ == #[trigger] resolved_format(
                    old(format)@,
                    functions.deep_view(),
                    signature,
                    n,
                )
                &&& r@ == resolved_url(old(format)@, functions.deep_view(), signature, n)
            },
        final(format).url == Some(r),
{
    let decipher_snippet = snippet_of(&functions, 0);
    let ncode_snippet = snippet_of(&functions, 1);
    let ghost before = format@;
    let ghost signature: Option<Seq<char>>;
    let first: String = match &format.url {
        Some(u) => {
            proof {
                signature = None;
            }
            u.clone()
        },
        None => {
            let raw: &str = match &format.signature_cipher {
                Some(c) => c.as_str(),
                None => match &format.cipher {
                    Some(c) => c.as_str(),
                    None => "",
                },
            };
            proof {
                reveal_strlit("");
                assert(raw@ =~= raw_url(before));
            }
            let u = decipher(raw, decipher_snippet, invoke);
            proof {
                signature = choose|outcome: Option<Seq<char>>|
                    {
                        &&& decipher_argument(raw@, decipher_snippet@) matches Some(argument)
                            ==> may_answer(
                            invoke,
                            decipher_snippet@,
                            DECIPHER_ENTRY@,
                            argument,
                            outcome,
                        )
                        &&& u@ == #[trigger] deciphered(raw@, decipher_snippet@, outcome)
                    };
            }
            u
        },
    };
    assert(first@ == unciphered_url(before, functions.deep_view(), signature));
    let resolved = ncode(first.as_str(), ncode_snippet, invoke);
    let ghost n: Option<Seq<char>> = choose|outcome: Option<Seq<char>>|
        {
            &&& ncode_argument(first@, ncode_snippet@) matches Some(argument) ==> may_answer(
                invoke,
                ncode_snippet@,
                NCODE_ENTRY@,
                argument,
                outcome,
            )
            &&& resolved@ == #[trigger] ncoded(first@, ncode_snippet@, outcome)
        };
    let r = resolved.clone();
    format.url = Some(resolved);
    format.signature_cipher = None;
    format.cipher = None;
    format.extras = extras_without_cipher(&format.extras);
    assert(format@ == resolved_format(before, functions.deep_view(), signature, n));
    r
}

/// A format after its URL was resolved: `url` holds the resolved URL, and
/// the cipher fields are gone, also from among the extras. Everything else
/// is as it was.
pub open spec fn resolved_format(
    f: FormatView,
    functions: Seq<Seq<char>>,
    signature: Option<Seq<char>>,
    n: Option<Seq<char>>,
) -> FormatView {
    FormatView {
        url: Some(resolved_url(f, functions, signature, n)),
        signature_cipher: None,
        cipher: None,
        extras: without_cipher(f.extras),
        ..f
    }
}

} // verus!
