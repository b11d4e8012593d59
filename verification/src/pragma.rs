//! The version pragma of a source text.

use vstd::prelude::*;
use crate::text::{chars_of, has_at, is_whitespace, is_whitespace_char, occurs_at, string_of};

verus! {

/// The first index at or behind `i` that holds no white space; the length
/// of the text where only white space follows.
pub open spec fn after_blanks(text: Seq<char>, i: int) -> int
    decreases text.len() - i,
{
    if 0 <= i < text.len() && is_whitespace(text[i]) {
        after_blanks(text, i + 1)
    } else {
        i
    }
}

/// The first index at or behind `i` that holds `;` or a line feed; the
/// length of the text where neither follows.
pub open spec fn expression_end(text: Seq<char>, i: int) -> int
    decreases text.len() - i,
{
    if 0 <= i < text.len() && text[i] != ';' && text[i] != '\n' {
        expression_end(text, i + 1)
    } else {
        i
    }
}

/// The expression of the version pragma that begins at index `at`: the
/// word `pragma`, white space, the word `solidity`, white space, then the
/// expression, which is not empty, holds no line feed and ends before the
/// first `;`. `None` where no such pragma begins at `at`.
pub open spec fn pragma_at(text: Seq<char>, at: int) -> Option<Seq<char>> {
    let word = after_blanks(text, at + 6);
    let from = after_blanks(text, word + 8);
    let to = expression_end(text, from);
    if occurs_at(text, at, "pragma"@) && at + 6 < word && occurs_at(text, word, "solidity"@)
        && word + 8 < from && from < to && to < text.len() && text[to] == ';' {
        Some(text.subrange(from, to))
    } else {
        None
    }
}

/// The expression of the first version pragma that begins at or behind
/// index `from`.
pub open spec fn first_pragma(text: Seq<char>, from: int) -> Option<Seq<char>>
    decreases text.len() - from,
{
    if from < 0 || from >= text.len() {
        None
    } else if pragma_at(text, from).is_some() {
        pragma_at(text, from)
    } else {
        first_pragma(text, from + 1)
    }
}

/// The expression of the first version pragma of a source text.
pub open spec fn version_pragma(text: Seq<char>) -> Option<Seq<char>> {
    first_pragma(text, 0)
}

fn skip_blanks(text: &[char], i: usize) -> (r: usize)
    requires
        i <= text.len(),
    ensures
        r == after_blanks(text@, i as int),
        i <= r <= text.len(),
{
    let mut k: usize = i;
    while k < text.len() && is_whitespace_char(text[k])
        invariant
            i <= k <= text.len(),
            after_blanks(text@, i as int) == after_blanks(text@, k as int),
        decreases text.len() - k,
    {
        k += 1;
    }
    k
}

fn find_end(text: &[char], i: usize) -> (r: usize)
    requires
        i <= text.len(),
    ensures
        r == expression_end(text@, i as int),
        i <= r <= text.len(),
{
    let mut k: usize = i;
    while k < text.len() && text[k] != ';' && text[k] != '\n'
        invariant
            i <= k <= text.len(),
            expression_end(text@, i as int) == expression_end(text@, k as int),
        decreases text.len() - k,
    {
        k += 1;
    }
    k
}

fn read_pragma_at(text: &[char], at: usize, pragma: &[char], solidity: &[char]) -> (r: Option<
    Vec<char>,
>)
    requires
        at < text.len(),
        pragma@ == "pragma"@,
        solidity@ == "solidity"@,
    ensures
        match r {
            Some(e) => pragma_at(text@, at as int) == Some(e@),
            None => pragma_at(text@, at as int).is_none(),
        },
{
    proof {
        reveal_strlit("pragma");
        reveal_strlit("solidity");
    }
    if !has_at(text, at, pragma) {
        return None;
    }
    let word = skip_blanks(text, at + 6);
    if word == at + 6 || !has_at(text, word, solidity) {
        return None;
    }
    let from = skip_blanks(text, word + 8);
    if from == word + 8 {
        return None;
    }
    let to = find_end(text, from);
    if to == from || to >= text.len() || text[to] != ';' {
        return None;
    }
    let mut out: Vec<char> = Vec::new();
    let mut k: usize = from;
    while k < to
        invariant
            from <= k <= to < text.len(),
            out@ == text@.subrange(from as int, k as int),
        decreases to - k,
    {
        out.push(text[k]);
        proof {
            assert(text@.subrange(from as int, k + 1) =~= text@.subrange(
                from as int,
                k as int,
            ).push(text@[k as int]));
        }
        k += 1;
    }
    Some(out)
}

/// Looks for the first version pragma of a source text and returns its
/// expression.
pub fn find_version_pragma(contract: &str) -> (r: Option<String>)
    ensures
        match r {
            Some(e) => version_pragma(contract@) == Some(e@),
            None => version_pragma(contract@).is_none(),
        },
{
    let text = chars_of(contract);
    let pragma = chars_of("pragma");
    let solidity = chars_of("solidity");
    let mut at: usize = 0;
    while at < text.len()
        invariant
            at <= text.len(),
            text@ == contract@,
            pragma@ == "pragma"@,
            solidity@ == "solidity"@,
            version_pragma(contract@) == first_pragma(text@, at as int),
        decreases text.len() - at,
    {
        match read_pragma_at(text.as_slice(), at, pragma.as_slice(), solidity.as_slice()) {
            Some(e) => {
                return Some(string_of(e.as_slice()));
            },
            None => {},
        }
        at += 1;
    }
    None
}

} // verus!
