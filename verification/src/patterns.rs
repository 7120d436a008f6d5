//! Regular-expression matching, through the `regex` crate.
use vstd::prelude::*;

verus! {

/// A match list: for each match, the text since the previous match and the
/// capture groups from the first on; then the text after the last match.
pub type SplitView = (Seq<(Seq<char>, Seq<Option<Seq<char>>>)>, Seq<char>);

/// What `Regex::new(pattern)` followed by `captures_iter(text)` yields, as a
/// match list; or the `Display` text of the compile error.
pub uninterp spec fn regex_split(pattern: Seq<char>, text: Seq<char>) -> Result<SplitView, Seq<char>>;

pub open spec fn opt_view(o: Option<String>) -> Option<Seq<char>> {
    match o {
        Some(s) => Some(s@),
        None => None,
    }
}

pub open spec fn split_view(v: (Vec<(String, Vec<Option<String>>)>, String)) -> SplitView {
    (
        v.0@.map_values(
            |p: (String, Vec<Option<String>>)|
                (p.0@, p.1@.map_values(|o: Option<String>| opt_view(o))),
        ),
        v.1@,
    )
}

pub open spec fn split_result_view(
    r: Result<(Vec<(String, Vec<Option<String>>)>, String), String>,
) -> Result<SplitView, Seq<char>> {
    match r {
        Ok(v) => Ok(split_view(v)),
        Err(e) => Err(e@),
    }
}

/// The pattern of a `${name}` placeholder.
pub open spec fn placeholder_pattern() -> Seq<char> {
    "\\$\\{([^}]+)\\}"@
}

/// Index of the first `}` at or after `j` (the length when there is none).
pub open spec fn close_brace(s: Seq<char>, j: int) -> int
    decreases s.len() - j,
{
    if j < 0 || j >= s.len() {
        s.len() as int
    } else if s[j] == '}' {
        j
    } else {
        close_brace(s, j + 1)
    }
}

/// A placeholder starts at `i`: `${`, at least one character, then the first
/// `}` after them.
pub open spec fn placeholder_at(s: Seq<char>, i: int) -> bool {
    &&& 0 <= i
    &&& i + 1 < s.len()
    &&& s[i] == '$'
    &&& s[i + 1] == '{'
    &&& close_brace(s, i + 2) < s.len()
    &&& close_brace(s, i + 2) > i + 2
}

/// The placeholders of `s` from index `i` on, leftmost first and without
/// overlap, as a match list whose literal text starts at `start`.
pub open spec fn placeholder_split_from(s: Seq<char>, start: int, i: int) -> SplitView
    decreases s.len() - i,
{
    if i < 0 || i >= s.len() {
        (Seq::empty(), s.subrange(start, s.len() as int))
    } else if placeholder_at(s, i) {
        let c = close_brace(s, i + 2);
        let rest = placeholder_split_from(s, c + 1, c + 1);
        (
            seq![(s.subrange(start, i), seq![Some(s.subrange(i + 2, c))])] + rest.0,
            rest.1,
        )
    } else {
        placeholder_split_from(s, start, i + 1)
    }
}

pub open spec fn placeholder_split(s: Seq<char>) -> SplitView {
    placeholder_split_from(s, 0, 0)
}

pub open spec fn placeholder_split_ok(s: Seq<char>) -> Result<SplitView, Seq<char>> {
    Ok(placeholder_split(s))
}

/// With no placeholder from `i` on, the split from `i` has no match and
/// keeps the text from `start`.
pub proof fn lemma_split_without_placeholders(s: Seq<char>, start: int, i: int)
    requires
        0 <= start <= s.len(),
        0 <= i,
        forall|j: int| i <= j < s.len() ==> !placeholder_at(s, j),
    ensures
        placeholder_split_from(s, start, i) == (Seq::<(Seq<char>, Seq<Option<Seq<char>>>)>::empty(), s.subrange(start, s.len() as int)),
    decreases s.len() - i,
{
    if i < s.len() {
        lemma_split_without_placeholders(s, start, i + 1);
    }
}

/// Compiles `pattern` with `regex::Regex::new` and walks
/// `Regex::captures_iter` over `text`. Claimed: the result is the match list
/// named `regex_split(pattern, text)`, the compile error being given by its
/// `Display` text; and for the placeholder pattern `\$\{([^}]+)\}` that list is
/// `placeholder_split(text)`, which is leftmost-first, non-overlapping matching
/// of that pattern as the crate documents it.
#[verifier::external_body]
pub fn regex_split_captures(pattern: &str, text: &str) -> (r: Result<
    (Vec<(String, Vec<Option<String>>)>, String),
    String,
>)
    ensures
        split_result_view(r) == regex_split(pattern@, text@),
        pattern@ == placeholder_pattern() ==> split_result_view(r) == placeholder_split_ok(text@),
{
    let re = match regex::Regex::new(pattern) {
        Ok(re) => re,
        Err(error) => return Err(error.to_string()),
    };
    let mut pieces = Vec::new();
    let mut last: usize = 0;
    for caps in re.captures_iter(text) {
        let whole = caps.get(0).unwrap();
        let groups = (1..caps.len()).map(|i| caps.get(i).map(|m| m.as_str().to_string()));
        pieces.push((text[last..whole.start()].to_string(), groups.collect()));
        last = whole.end();
    }
    Ok((pieces, text[last..].to_string()))
}

} // verus!
