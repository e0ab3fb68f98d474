//! Lexical scanning of script text: the text between two delimiters, and the
//! balanced region that starts at an opening bracket.

use vstd::prelude::*;
use crate::pattern::{is_match, matches_pattern};
use crate::text::{
    chars_of, contains_text, find, find_from, first_occurrence, first_occurrence_from,
    lemma_first_occurrence_from, lemma_first_occurrence_is, occurs_at, string_of_range,
};

verus! {

/// The text strictly between the first `left` in `hay` and the first `right`
/// after it; empty where either is missing.
pub open spec fn between_spec(hay: Seq<char>, left: Seq<char>, right: Seq<char>) -> Seq<char> {
    match first_occurrence(hay, left) {
        None => Seq::empty(),
        Some(i) => match first_occurrence_from(hay, right, i + left.len()) {
            None => Seq::empty(),
            Some(j) => hay.subrange(i + left.len(), j),
        },
    }
}

/// Where `left` does not occur in `hay`, nothing lies between.
pub proof fn lemma_between_without_left(hay: Seq<char>, left: Seq<char>, right: Seq<char>)
    requires
        !contains_text(hay, left),
    ensures
        between_spec(hay, left, right) == Seq::<char>::empty(),
{
}

/// Where `left` occurs first at `i` and `right` occurs at `k`, after that
/// `left`, the text between is the part of `hay` from the end of `left` to the
/// first such `right`: `hay` reads `left`, the text between, `right` from `i`
/// on, and `right` starts nowhere earlier behind `left`.
pub proof fn lemma_between_bounded(
    hay: Seq<char>,
    left: Seq<char>,
    right: Seq<char>,
    i: int,
    k: int,
)
    requires
        occurs_at(hay, left, i),
        forall|j: int| 0 <= j < i ==> !occurs_at(hay, left, j),
        i + left.len() <= k,
        occurs_at(hay, right, k),
    ensures
        ({
            let b = between_spec(hay, left, right);
            let end = i + left.len() + b.len();
            &&& end <= k
            &&& occurs_at(hay, right, end)
            &&& hay.subrange(i, end + right.len()) == left + b + right
            &&& forall|j: int| i + left.len() <= j < end ==> !occurs_at(hay, right, j)
        }),
{
    lemma_first_occurrence_is(hay, left, 0, i);
    lemma_first_occurrence_from(hay, right, i + left.len());
    let b = between_spec(hay, left, right);
    let end = i + left.len() + b.len();
    assert(hay.subrange(i, end + right.len()) =~= left + b + right);
}

/// The bounds in `hay` of the text that `between_spec` describes; `(0, 0)`
/// where it is empty because a delimiter is missing.
pub fn between_range(hay: &Vec<char>, left: &Vec<char>, right: &Vec<char>) -> (r: (usize, usize))
    ensures
        r.0 <= r.1 <= hay.len(),
        hay@.subrange(r.0 as int, r.1 as int) == between_spec(hay@, left@, right@),
{
    proof {
        lemma_first_occurrence_from(hay@, left@, 0);
    }
    match find(hay, left) {
        None => {
            assert(hay@.subrange(0, 0) =~= Seq::<char>::empty());
            (0, 0)
        },
        Some(i) => {
            assert(i + left.len() <= hay.len());
            let start: usize = i + left.len();
            proof {
                lemma_first_occurrence_from(hay@, right@, start as int);
            }
            match find_from(hay, right, start) {
                None => {
                    assert(hay@.subrange(0, 0) =~= Seq::<char>::empty());
                    (0, 0)
                },
                Some(j) => (start, j),
            }
        },
    }
}

/// The text strictly between the first `left` in `haystack` and the first
/// `right` after it. The search is literal. Empty where either is missing.
pub fn between<'a>(haystack: &'a str, left: &'a str, right: &'a str) -> (r: &'a str)
    ensures
        r@ == between_spec(haystack@, left@, right@),
        !contains_text(haystack@, left@) ==> r@.len() == 0,
{
    let hay = chars_of(haystack);
    let l = chars_of(left);
    let r = chars_of(right);
    let (from, to) = between_range(&hay, &l, &r);
    haystack.substring_char(from, to)
}

/// The kinds of literal inside which brackets do not count.
#[derive(Clone, Copy, PartialEq, Eq, Structural, Debug)]
pub enum Literal {
    /// Between double quotes.
    Double,
    /// Between single quotes.
    Single,
    /// Between backticks.
    Backtick,
    /// A regular-expression literal, between slashes.
    Regex,
}

/// The state of a scan before a character.
#[derive(Clone, Copy, PartialEq, Eq, Structural, Debug)]
pub struct ScanState {
    /// The character is escaped: an unescaped backslash stands before it.
    pub escaped: bool,
    /// The literal inside which the character stands.
    pub literal: Option<Literal>,
    /// How many brackets are open.
    pub depth: usize,
}

/// The state of a scan as a mathematical value: the depth has no bound.
pub ghost struct Scan {
    pub escaped: bool,
    pub literal: Option<Literal>,
    pub depth: nat,
}

impl View for ScanState {
    type V = Scan;

    open spec fn view(&self) -> Scan {
        Scan { escaped: self.escaped, literal: self.literal, depth: self.depth as nat }
    }
}

/// The character that ends a literal.
pub open spec fn literal_end(literal: Literal) -> char {
    match literal {
        Literal::Double => '"',
        Literal::Single => '\'',
        Literal::Backtick => '`',
        Literal::Regex => '/',
    }
}

/// The expression that the text just before a `/` must match for the `/` to
/// open a regular-expression literal: the start of the text or one of
/// `[ { : ; ,`, then at most one white-space character, then the end.
pub const REGEX_PREFIX: &'static str = "(^|[\\[{:;,])\\s?$";

/// How many characters before a `/` are looked at.
pub const LOOKBACK: usize = 10;

/// The `LOOKBACK` characters before position `i`, or as many as there are.
pub open spec fn lookback(text: Seq<char>, i: int) -> Seq<char> {
    text.subrange(if i >= LOOKBACK { i - LOOKBACK } else { 0 }, i)
}

/// A `/` at position `i` may open a regular-expression literal: the text just
/// before it matches `REGEX_PREFIX`.
pub open spec fn regex_may_start(text: Seq<char>, i: int) -> bool {
    matches_pattern(REGEX_PREFIX@, lookback(text, i))
}

/// The literal that the unescaped character `c` opens outside any literal,
/// where `regex_prefix` tells whether a `/` may open one.
pub open spec fn literal_start(c: char, regex_prefix: bool) -> Option<Literal> {
    if c == '"' {
        Some(Literal::Double)
    } else if c == '\'' {
        Some(Literal::Single)
    } else if c == '`' {
        Some(Literal::Backtick)
    } else if c == '/' && regex_prefix {
        Some(Literal::Regex)
    } else {
        None
    }
}

/// The depth behind an unescaped character outside any literal: one more
/// behind `open`, one less behind `close`, but never below zero.
pub open spec fn depth_after(depth: nat, c: char, open: char, close: char) -> nat {
    if c == open {
        depth + 1
    } else if c == close && depth > 0 {
        (depth - 1) as nat
    } else {
        depth
    }
}

/// One step of the scan, over the character `c`: the state behind it, or
/// `None` where the region ends behind it.
///
/// An escaped character changes nothing. An unescaped backslash escapes the
/// next character. Inside a literal only its unescaped end character counts.
/// Outside, an unescaped character either opens a literal or, if it is
/// `open` or `close`, changes the depth; the region ends behind the character
/// that leaves the depth at zero.
pub open spec fn step(state: Scan, c: char, open: char, close: char, regex_prefix: bool) -> Option<
    Scan,
> {
    if state.escaped {
        Some(Scan { escaped: false, ..state })
    } else if let Some(active) = state.literal {
        if c == literal_end(active) {
            Some(Scan { escaped: false, literal: None, depth: state.depth })
        } else {
            Some(Scan { escaped: c == '\\', ..state })
        }
    } else if literal_start(c, regex_prefix) is Some {
        Some(Scan { escaped: false, literal: literal_start(c, regex_prefix), depth: state.depth })
    } else if depth_after(state.depth, c, open, close) == 0 {
        None
    } else {
        Some(
            Scan {
                escaped: c == '\\',
                literal: None,
                depth: depth_after(state.depth, c, open, close),
            },
        )
    }
}

/// The end (exclusive) of the balanced region, for a scan that stands before
/// position `i` in `state`: the scan goes step by step to the character
/// behind which the region ends.
pub open spec fn balanced_end(
    text: Seq<char>,
    open: char,
    close: char,
    i: int,
    state: Scan,
) -> Option<int>
    decreases text.len() - i,
{
    if i < 0 || i >= text.len() {
        None
    } else {
        match step(state, text[i], open, close, regex_may_start(text, i)) {
            None => Some(i + 1),
            Some(next) => balanced_end(text, open, close, i + 1, next),
        }
    }
}

/// The bracket that closes the region which `c` opens.
pub open spec fn closer_of(c: char) -> Option<char> {
    if c == '{' {
        Some('}')
    } else if c == '[' {
        Some(']')
    } else {
        None
    }
}

/// The state in which a scan starts.
pub open spec fn start_state() -> Scan {
    Scan { escaped: false, literal: None, depth: 0 }
}

/// The length of the shortest prefix of `text` that starts with `{` or `[` and
/// closes that bracket, brackets inside literals and escaped characters not
/// counting.
pub open spec fn cut_length(text: Seq<char>) -> Option<int> {
    if text.len() == 0 {
        None
    } else {
        match closer_of(text[0]) {
            None => None,
            Some(close) => balanced_end(text, text[0], close, 0, start_state()),
        }
    }
}

/// The balanced region at the start of `text`.
pub open spec fn cut_after_js_spec(text: Seq<char>) -> Option<Seq<char>> {
    match cut_length(text) {
        None => None,
        Some(end) => Some(text.take(end)),
    }
}

/// A region that `balanced_end` finds ends behind `i` and inside the text.
pub proof fn lemma_balanced_end_bounds(
    text: Seq<char>,
    open: char,
    close: char,
    i: int,
    state: Scan,
)
    ensures
        balanced_end(text, open, close, i, state) matches Some(end) ==> i < end <= text.len(),
    decreases text.len() - i,
{
    if 0 <= i < text.len() {
        match step(state, text[i], open, close, regex_may_start(text, i)) {
            None => {},
            Some(next) => {
                lemma_balanced_end_bounds(text, open, close, i + 1, next);
            },
        }
    }
}

/// A region of depth one or more ends with the closing bracket.
pub proof fn lemma_balanced_end_closes(
    text: Seq<char>,
    open: char,
    close: char,
    i: int,
    state: Scan,
)
    requires
        state.depth >= 1,
        open != close,
    ensures
        balanced_end(text, open, close, i, state) matches Some(end) ==> i < end <= text.len()
            && text[end - 1] == close,
    decreases text.len() - i,
{
    if 0 <= i < text.len() {
        match step(state, text[i], open, close, regex_may_start(text, i)) {
            None => {},
            Some(next) => {
                lemma_balanced_end_closes(text, open, close, i + 1, next);
            },
        }
    }
}

/// The scan of a prefix of a text goes the way of the scan of the text: where
/// the region of the text ends inside the prefix, so does that of the prefix,
/// and where it ends behind the prefix or nowhere, the prefix has none.
pub proof fn lemma_balanced_end_of_prefix(
    text: Seq<char>,
    k: int,
    open: char,
    close: char,
    i: int,
    state: Scan,
)
    requires
        0 <= i,
        0 <= k <= text.len(),
    ensures
        balanced_end(text.take(k), open, close, i, state) == match balanced_end(
            text,
            open,
            close,
            i,
            state,
        ) {
            Some(end) => if end <= k {
                Some(end)
            } else {
                None
            },
            None => None,
        },
    decreases text.len() - i,
{
    let part = text.take(k);
    lemma_balanced_end_bounds(text, open, close, i, state);
    if i < k {
        assert(part[i] == text[i]);
        assert(lookback(part, i) =~= lookback(text, i));
        match step(state, text[i], open, close, regex_may_start(text, i)) {
            None => {},
            Some(next) => {
                lemma_balanced_end_of_prefix(text, k, open, close, i + 1, next);
            },
        }
    }
}

/// The balanced region at the start of a text starts with the opening bracket
/// and ends with the closing one; it is its own balanced region, and no
/// shorter prefix of the text has one.
pub proof fn lemma_cut_is_shortest(text: Seq<char>)
    ensures
        cut_length(text) matches Some(end) ==> {
            &&& 2 <= end <= text.len()
            &&& closer_of(text[0]) == Some(text[end - 1])
            &&& cut_length(text.take(end)) == Some(end)
            &&& forall|k: int| 0 <= k < end ==> cut_length(#[trigger] text.take(k)) is None
        },
{
    if cut_length(text) is Some {
        let end = cut_length(text).unwrap();
        let open = text[0];
        let close = closer_of(open).unwrap();
        let first = step(start_state(), open, open, close, regex_may_start(text, 0));
        lemma_balanced_end_bounds(text, open, close, 0, start_state());
        assert(first == Some(Scan { escaped: false, literal: None, depth: 1 }));
        lemma_balanced_end_closes(text, open, close, 1, first.unwrap());
        assert forall|k: int| 0 <= k <= end implies cut_length(#[trigger] text.take(k)) == if k
            == end {
            Some(end)
        } else {
            None
        } by {
            if k > 0 {
                assert(text.take(k)[0] == text[0]);
                lemma_balanced_end_of_prefix(text, k, open, close, 0, start_state());
            }
        }
    }
}

/// One step of the scan, over the character `c`: the state behind it, or
/// `None` where the region ends behind it. `regex_prefix` tells whether a `/`
/// may open a regular-expression literal here.
pub fn scan_step(state: ScanState, c: char, open: char, close: char, regex_prefix: bool) -> (r:
    Option<ScanState>)
    requires
        state.depth < usize::MAX,
    ensures
        match r {
            Some(next) => step(state@, c, open, close, regex_prefix) == Some(next@),
            None => step(state@, c, open, close, regex_prefix) is None,
        },
{
    if state.escaped {
        return Some(ScanState { escaped: false, literal: state.literal, depth: state.depth });
    }
    match state.literal {
        Some(active) => {
            let end: char = match active {
                Literal::Double => '"',
                Literal::Single => '\'',
                Literal::Backtick => '`',
                Literal::Regex => '/',
            };
            if c == end {
                Some(ScanState { escaped: false, literal: None, depth: state.depth })
            } else {
                Some(ScanState { escaped: c == '\\', literal: state.literal, depth: state.depth })
            }
        },
        None => {
            let opened: Option<Literal> = if c == '"' {
                Some(Literal::Double)
            } else if c == '\'' {
                Some(Literal::Single)
            } else if c == '`' {
                Some(Literal::Backtick)
            } else if c == '/' && regex_prefix {
                Some(Literal::Regex)
            } else {
                None
            };
            if opened.is_some() {
                return Some(ScanState { escaped: false, literal: opened, depth: state.depth });
            }
            let depth: usize = if c == open {
                state.depth + 1
            } else if c == close && state.depth > 0 {
                state.depth - 1
            } else {
                state.depth
            };
            if depth == 0 {
                None
            } else {
                Some(ScanState { escaped: c == '\\', literal: None, depth: depth })
            }
        },
    }
}

/// Whether a `/` at position `i` of `text` may open a regular-expression
/// literal.
pub fn regex_may_start_at(text: &Vec<char>, i: usize) -> (r: bool)
    requires
        i <= text.len(),
    ensures
        r == regex_may_start(text@, i as int),
{
    let from: usize = if i >= LOOKBACK {
        i - LOOKBACK
    } else {
        0
    };
    let before = string_of_range(text, from, i);
    is_match(REGEX_PREFIX, before.as_str())
}

/// The length of the balanced region at the start of `text`.
pub fn cut_chars(text: &Vec<char>) -> (r: Option<usize>)
    ensures
        r matches Some(end) ==> 0 < end <= text.len(),
        match r {
            Some(end) => cut_length(text@) == Some(end as int),
            None => cut_length(text@) is None,
        },
{
    if text.len() == 0 {
        return None;
    }
    let open: char = text[0];
    let close: char = if open == '{' {
        '}'
    } else if open == '[' {
        ']'
    } else {
        return None;
    };
    let mut state = ScanState { escaped: false, literal: None, depth: 0 };
    let mut i: usize = 0;
    while i < text.len()
        invariant
            i <= text.len(),
            closer_of(text@[0]) == Some(close),
            open == text@[0],
            state.depth <= i,
            cut_length(text@) == balanced_end(text@, open, close, i as int, state@),
        decreases text.len() - i,
    {
        let c: char = text[i];
        let asks: bool = c == '/' && !state.escaped && state.literal.is_none();
        let regex_prefix: bool = asks && regex_may_start_at(text, i);
        assert(step(state@, c, open, close, regex_prefix) == step(
            state@,
            c,
            open,
            close,
            regex_may_start(text@, i as int),
        ));
        match scan_step(state, c, open, close, regex_prefix) {
            None => {
                return Some(i + 1);
            },
            Some(next) => {
                state = next;
            },
        }
        i += 1;
    }
    None
}

/// The shortest prefix of `mixed_json` that starts with `{` or `[` and closes
/// that bracket. Brackets inside string, template and regular-expression
/// literals do not count, nor does an escaped character. `None` where the text
/// starts with another character or the bracket is never closed. What is
/// returned ends with the closing bracket, is its own balanced region, and is
/// the shortest: no shorter prefix of the text has a balanced region.
pub fn cut_after_js(mixed_json: &str) -> (r: Option<String>)
    ensures
        match r {
            Some(s) => cut_after_js_spec(mixed_json@) == Some(s@),
            None => cut_after_js_spec(mixed_json@) is None,
        },
        mixed_json@.len() == 0 || (mixed_json@[0] != '{' && mixed_json@[0] != '[') ==> r is None,
        r matches Some(s) ==> {
            &&& 2 <= s@.len() <= mixed_json@.len()
            &&& s@ == mixed_json@.take(s@.len() as int)
            &&& closer_of(s@[0]) == Some(s@.last())
            &&& cut_after_js_spec(s@) == Some(s@)
            &&& forall|k: int|
                0 <= k < s@.len() ==> cut_after_js_spec(#[trigger] mixed_json@.take(k)) is None
        },
{
    proof {
        lemma_cut_is_shortest(mixed_json@);
        if cut_length(mixed_json@) is Some {
            let end = cut_length(mixed_json@).unwrap();
            assert(mixed_json@.take(end).take(end) =~= mixed_json@.take(end));
        }
    }
    let text = chars_of(mixed_json);
    match cut_chars(&text) {
        None => None,
        Some(end) => Some(string_of_range(&text, 0, end)),
    }
}

} // verus!
