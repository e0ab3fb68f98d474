//! Query strings and URLs: what the `serde_qs`, `urlencoding` and `url` crates
//! make of a text, and the rewriting of one query parameter.

use vstd::prelude::*;
use crate::text::chars_of;

verus! {

/// What `serde_qs` reads in a query string: its top-level components in the
/// order in which the parsed map yields them, each with its name and, where
/// the component is a plain string, its value. `None` where the text does not
/// parse.
pub uninterp spec fn query_components(text: Seq<char>) -> Option<
    Seq<(Seq<char>, Option<Seq<char>>)>,
>;

/// What `urlencoding` makes of a percent-encoded text; `None` where the
/// decoded bytes are not UTF-8.
pub uninterp spec fn percent_decoded(text: Seq<char>) -> Option<Seq<char>>;

/// The name-value pairs that `url` reads in the query of a URL; `None` where
/// the text does not parse as a URL.
pub uninterp spec fn url_query_pairs(text: Seq<char>) -> Option<Seq<(Seq<char>, Seq<char>)>>;

/// The text of a URL once `url` has replaced its query by the given pairs;
/// `None` where the text does not parse as a URL.
pub uninterp spec fn url_with_query(text: Seq<char>, pairs: Seq<(Seq<char>, Seq<char>)>) -> Option<
    Seq<char>,
>;

/// The host that `url` reads in a URL, where the URL has one; `None` where the
/// text does not parse as a URL.
pub uninterp spec fn url_host(text: Seq<char>) -> Option<Option<Seq<char>>>;

/// Parses `text` with `url::Url::parse` and hands out what `Url::host_str`
/// returns. The contract gives the result its name, `url_host`, and claims no
/// more.
#[verifier::external_body]
pub(crate) fn url_host_of(text: &str) -> (r: Option<Option<String>>)
    ensures
        r.deep_view() == url_host(text@),
{
    match url::Url::parse(text) {
        Ok(parsed) => Some(parsed.host_str().map(|h| h.to_string())),
        Err(_) => None,
    }
}

/// Parses `text` with `serde_qs::from_str` into a `serde_json` map and hands
/// out its entries, a value that is not a string as `None`. The contract
/// gives the result its name, `query_components`, and claims no more.
#[verifier::external_body]
pub(crate) fn parse_query(text: &str) -> (r: Option<Vec<(String, Option<String>)>>)
    ensures
        r.deep_view() == query_components(text@),
{
    match serde_qs::from_str::<serde_json::Map<String, serde_json::Value>>(text) {
        Ok(map) => Some(
            map.into_iter().map(|(k, v)| (k, v.as_str().map(|s| s.to_string()))).collect(),
        ),
        Err(_) => None,
    }
}

/// Decodes `text` with `urlencoding::decode`. The contract gives the result
/// its name, `percent_decoded`, and claims no more.
#[verifier::external_body]
pub(crate) fn percent_decode(text: &str) -> (r: Option<String>)
    ensures
        r.deep_view() == percent_decoded(text@),
{
    match urlencoding::decode(text) {
        Ok(decoded) => Some(decoded.into_owned()),
        Err(_) => None,
    }
}

/// Parses `text` with `url::Url::parse` and collects what `Url::query_pairs`
/// yields. The contract gives the result its name, `url_query_pairs`, and
/// claims no more.
#[verifier::external_body]
pub(crate) fn url_pairs(text: &str) -> (r: Option<Vec<(String, String)>>)
    ensures
        r.deep_view() == url_query_pairs(text@),
{
    match url::Url::parse(text) {
        Ok(parsed) => Some(parsed.query_pairs().into_owned().collect()),
        Err(_) => None,
    }
}

/// Parses `text` with `url::Url::parse`, empties its query and fills it with
/// `pairs` through `Url::query_pairs_mut`, and writes the URL out. The
/// contract gives the result its name, `url_with_query`, and claims no more.
#[verifier::external_body]
pub(crate) fn url_replace_query(text: &str, pairs: &Vec<(String, String)>) -> (r: Option<String>)
    ensures
        r.deep_view() == url_with_query(text@, pairs.deep_view()),
{
    match url::Url::parse(text) {
        Ok(mut parsed) => {
            parsed.query_pairs_mut().clear().extend_pairs(pairs);
            Some(parsed.to_string())
        },
        Err(_) => None,
    }
}

/// The index of the first of `components` at or after `from` that is named
/// `name`.
pub open spec fn component_index(
    components: Seq<(Seq<char>, Option<Seq<char>>)>,
    name: Seq<char>,
    from: int,
) -> Option<int>
    decreases components.len() - from,
{
    if from < 0 || from >= components.len() {
        None
    } else if components[from].0 == name {
        Some(from)
    } else {
        component_index(components, name, from + 1)
    }
}

/// Whether one of `components` is named `name`.
pub open spec fn has_component(
    components: Seq<(Seq<char>, Option<Seq<char>>)>,
    name: Seq<char>,
) -> bool {
    component_index(components, name, 0) is Some
}

/// The value of the first of `components` that is named `name`, where there
/// is one and its value is a plain string.
pub open spec fn component_value(
    components: Seq<(Seq<char>, Option<Seq<char>>)>,
    name: Seq<char>,
) -> Option<Seq<char>> {
    match component_index(components, name, 0) {
        Some(i) => components[i].1,
        None => None,
    }
}

/// The value of the first of `components` that is named `name`; empty where
/// there is none or its value is not a plain string.
pub open spec fn component_text(
    components: Seq<(Seq<char>, Option<Seq<char>>)>,
    name: Seq<char>,
) -> Seq<char> {
    match component_value(components, name) {
        Some(value) => value,
        None => Seq::empty(),
    }
}

/// Whether one of `pairs` is named `name`.
pub open spec fn has_pair(pairs: Seq<(Seq<char>, Seq<char>)>, name: Seq<char>) -> bool {
    exists|i: int| 0 <= i < pairs.len() && (#[trigger] pairs[i]).0 == name
}

/// `pairs` with the value of every pair named `name` replaced by `value`.
pub open spec fn with_value(
    pairs: Seq<(Seq<char>, Seq<char>)>,
    name: Seq<char>,
    value: Seq<char>,
) -> Seq<(Seq<char>, Seq<char>)> {
    Seq::new(
        pairs.len(),
        |i: int|
            if pairs[i].0 == name {
                (name, value)
            } else {
                pairs[i]
            },
    )
}

/// `pairs` with the value of every pair named `name` replaced by `value`, and
/// with such a pair added at the end where there was none.
pub open spec fn with_value_set(
    pairs: Seq<(Seq<char>, Seq<char>)>,
    name: Seq<char>,
    value: Seq<char>,
) -> Seq<(Seq<char>, Seq<char>)> {
    if has_pair(pairs, name) {
        with_value(pairs, name, value)
    } else {
        pairs.push((name, value))
    }
}

/// The index of the first of `pairs`, at or after `from`, that is named
/// `name`.
pub open spec fn pair_index(pairs: Seq<(Seq<char>, Seq<char>)>, name: Seq<char>, from: int) -> Option<
    int,
>
    decreases pairs.len() - from,
{
    if from < 0 || from >= pairs.len() {
        None
    } else if pairs[from].0 == name {
        Some(from)
    } else {
        pair_index(pairs, name, from + 1)
    }
}

/// The value of the first of `pairs` that is named `name`.
pub open spec fn pair_value(pairs: Seq<(Seq<char>, Seq<char>)>, name: Seq<char>) -> Option<
    Seq<char>,
> {
    match pair_index(pairs, name, 0) {
        Some(i) => Some(pairs[i].1),
        None => None,
    }
}

/// Whether two strings hold the same text.
pub fn same_text(a: &str, b: &str) -> (r: bool)
    ensures
        r == (a@ == b@),
{
    let x = chars_of(a);
    let y = chars_of(b);
    if x.len() != y.len() {
        return false;
    }
    let mut i: usize = 0;
    while i < x.len()
        invariant
            i <= x.len(),
            x.len() == y.len(),
            x@ == a@,
            y@ == b@,
            forall|j: int| 0 <= j < i ==> x@[j] == y@[j],
        decreases x.len() - i,
    {
        if x[i] != y[i] {
            assert(a@[i as int] != b@[i as int]);
            return false;
        }
        i += 1;
    }
    assert(x@ =~= y@);
    true
}

/// The index of the first of `components` that is named `name`.
pub fn find_component(components: &Vec<(String, Option<String>)>, name: &str) -> (r: Option<usize>)
    ensures
        match r {
            Some(i) => i < components.len() && component_index(components.deep_view(), name@, 0)
                == Some(i as int),
            None => component_index(components.deep_view(), name@, 0) is None,
        },
{
    let mut i: usize = 0;
    while i < components.len()
        invariant
            i <= components.len(),
            component_index(components.deep_view(), name@, 0) == component_index(
                components.deep_view(),
                name@,
                i as int,
            ),
        decreases components.len() - i,
    {
        if same_text(components[i].0.as_str(), name) {
            return Some(i);
        }
        i += 1;
    }
    None
}

/// The value of the first of `components` that is named `name`, where there
/// is one and its value is a plain string.
pub fn value_of_component(components: &Vec<(String, Option<String>)>, name: &str) -> (r: Option<
    String,
>)
    ensures
        r.deep_view() == component_value(components.deep_view(), name@),
{
    match find_component(components, name) {
        Some(i) => match &components[i].1 {
            Some(value) => Some(value.clone()),
            None => None,
        },
        None => None,
    }
}

/// The value of the first of `components` that is named `name`; empty where
/// there is none or its value is not a plain string.
pub fn text_of_component(components: &Vec<(String, Option<String>)>, name: &str) -> (r: String)
    ensures
        r@ == component_text(components.deep_view(), name@),
{
    match value_of_component(components, name) {
        Some(value) => value,
        None => String::new(),
    }
}

/// The value of the first of `pairs` that is named `name`.
pub fn value_of_pair(pairs: &Vec<(String, String)>, name: &str) -> (r: Option<String>)
    ensures
        r.deep_view() == pair_value(pairs.deep_view(), name@),
{
    let mut i: usize = 0;
    while i < pairs.len()
        invariant
            i <= pairs.len(),
            pair_index(pairs.deep_view(), name@, 0) == pair_index(
                pairs.deep_view(),
                name@,
                i as int,
            ),
        decreases pairs.len() - i,
    {
        if same_text(pairs[i].0.as_str(), name) {
            return Some(pairs[i].1.clone());
        }
        i += 1;
    }
    None
}

/// `pairs` with the value of every pair named `name` replaced by `value`; where
/// `append` is set and there is no such pair, one is added at the end.
pub fn set_pair(pairs: &Vec<(String, String)>, name: &str, value: &str, append: bool) -> (r: Vec<
    (String, String),
>)
    ensures
        r.deep_view() == if append {
            with_value_set(pairs.deep_view(), name@, value@)
        } else {
            with_value(pairs.deep_view(), name@, value@)
        },
{
    let mut r: Vec<(String, String)> = Vec::new();
    let mut found: bool = false;
    let mut i: usize = 0;
    while i < pairs.len()
        invariant
            i <= pairs.len(),
            r.len() == i,
            found == has_pair(pairs.deep_view().take(i as int), name@),
            r.deep_view() == with_value(pairs.deep_view(), name@, value@).take(i as int),
        decreases pairs.len() - i,
    {
        let ghost before = r.deep_view();
        let ghost seen = pairs.deep_view().take(i as int);
        if same_text(pairs[i].0.as_str(), name) {
            r.push((String::from_str(name), String::from_str(value)));
            found = true;
            assert(pairs.deep_view().take(i + 1)[i as int].0 == name@);
        } else {
            r.push((pairs[i].0.clone(), pairs[i].1.clone()));
            assert forall|j: int|
                0 <= j < i + 1 && (#[trigger] pairs.deep_view().take(i + 1)[j]).0
                    == name@ implies has_pair(seen, name@) by {
                assert(seen[j] == pairs.deep_view().take(i + 1)[j]);
            }
        }
        assert forall|j: int| 0 <= j < i && (#[trigger] seen[j]).0 == name@ implies has_pair(
            pairs.deep_view().take(i + 1),
            name@,
        ) by {
            assert(pairs.deep_view().take(i + 1)[j] == seen[j]);
        }
        i += 1;
        assert(r.deep_view() =~= with_value(pairs.deep_view(), name@, value@).take(i as int));
    }
    assert(pairs.deep_view().take(pairs.len() as int) =~= pairs.deep_view());
    assert(with_value(pairs.deep_view(), name@, value@).take(pairs.len() as int) =~= with_value(
        pairs.deep_view(),
        name@,
        value@,
    ));
    if append && !found {
        let ghost before = r.deep_view();
        r.push((String::from_str(name), String::from_str(value)));
        assert(r.deep_view() =~= before.push((name@, value@)));
    }
    r
}

} // verus!
