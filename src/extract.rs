//! The field extractor: the text between the first two double quotes of a line.

use vstd::prelude::*;
use crate::text::{chars_of, string_of};

verus! {

/// Index of the first `"` in `s` at or after `from`, or `s.len()` where there is none.
pub open spec fn quote_pos(s: Seq<char>, from: int) -> int
    decreases s.len() - from,
{
    if from < 0 || from >= s.len() {
        s.len() as int
    } else if s[from] == '"' {
        from
    } else {
        quote_pos(s, from + 1)
    }
}

/// The placeholder that stands for a field that a line does not hold.
pub open spec fn no_field() -> Seq<char> {
    seq!['n', 'o', 'n', 'e']
}

/// What the extractor returns for `line`: the characters strictly between its
/// first and second `"`, or `no_field()` where there are fewer than two quotes
/// or nothing stands between them.
pub open spec fn quoted_field(line: Seq<char>) -> Seq<char> {
    let i = quote_pos(line, 0);
    let j = quote_pos(line, i + 1);
    if i < line.len() && j < line.len() && j > i + 1 {
        line.subrange(i + 1, j)
    } else {
        no_field()
    }
}

proof fn lemma_quote_pos_bounds(s: Seq<char>, from: int)
    requires
        0 <= from,
    ensures
        from <= quote_pos(s, from) <= s.len() || (from > s.len() && quote_pos(s, from) == s.len()),
        quote_pos(s, from) < s.len() ==> s[quote_pos(s, from)] == '"',
        forall|k: int| from <= k < quote_pos(s, from) ==> s[k] != '"',
    decreases s.len() - from,
{
    if from < s.len() && s[from] != '"' {
        lemma_quote_pos_bounds(s, from + 1);
    }
}

/// Finds the first `"` in `s` at or after `from`; `s.len()` where there is none.
fn find_quote(s: &Vec<char>, from: usize) -> (r: usize)
    requires
        from <= s@.len(),
    ensures
        r as int == quote_pos(s@, from as int),
{
    let mut k: usize = from;
    while k < s.len() && s[k] != '"'
        invariant
            from <= k <= s@.len(),
            quote_pos(s@, from as int) == quote_pos(s@, k as int),
        decreases s@.len() - k,
    {
        k = k + 1;
    }
    k
}

/// Returns the text between the first and the second `"` of `line`, or
/// `"none"` where the line has fewer than two quotes or they are adjacent.
pub fn extract_quoted_string(line: &str) -> (r: String)
    ensures
        r@ == quoted_field(line@),
{
    let v = chars_of(line);
    let i = find_quote(&v, 0);
    if i >= v.len() {
        return none_string();
    }
    let j = find_quote(&v, i + 1);
    if j >= v.len() || j <= i + 1 {
        return none_string();
    }
    let mut out: Vec<char> = Vec::new();
    let mut k: usize = i + 1;
    while k < j
        invariant
            i + 1 <= k <= j,
            j < v@.len(),
            out@ == v@.subrange(i + 1, k as int),
        decreases j - k,
    {
        out.push(v[k]);
        proof {
            assert(v@.subrange(i + 1, k + 1) =~= v@.subrange(i + 1, k as int).push(v@[k as int]));
        }
        k = k + 1;
    }
    string_of(&out)
}

fn none_string() -> (r: String)
    ensures
        r@ == no_field(),
{
    let s = String::from_str("none");
    proof {
        reveal_strlit("none");
    }
    s
}

/// A line whose first two quotes stand at `i` and `j`, with at least one
/// character between them, yields exactly those characters; a line with fewer
/// than two quotes, or whose first two quotes are adjacent, yields `"none"`.
pub proof fn lemma_extractor_cases(line: Seq<char>, i: int, j: int)
    ensures
        (0 <= i < j < line.len() && line[i] == '"' && line[j] == '"'
            && (forall|k: int| 0 <= k < j && k != i ==> line[k] != '"'))
            ==> quoted_field(line) == (if j > i + 1 {
                line.subrange(i + 1, j)
            } else {
                no_field()
            }),
        (forall|a: int, b: int|
            0 <= a < b < line.len() ==> !(line[a] == '"' && line[b] == '"'))
            ==> quoted_field(line) == no_field(),
{
    lemma_quote_pos_bounds(line, 0);
    let p = quote_pos(line, 0);
    lemma_quote_pos_bounds(line, p + 1);
    let q = quote_pos(line, p + 1);
    if 0 <= i < j < line.len() && line[i] == '"' && line[j] == '"' && (forall|k: int|
        0 <= k < j && k != i ==> line[k] != '"') {
        assert(p == i);
        assert(q == j);
    }
    if forall|a: int, b: int| 0 <= a < b < line.len() ==> !(line[a] == '"' && line[b] == '"') {
        if p < line.len() && q < line.len() {
            assert(line[p] == '"' && line[q] == '"');
        }
    }
}

} // verus!
