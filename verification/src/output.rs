//! What the output of a compiler run means.

use vstd::prelude::*;
use vstd::utf8::{decode_utf8, valid_utf8};
use crate::error::{Output, SolcError};
use crate::text::{chars_of, has_at, is_whitespace, is_whitespace_char, occurs_at, string_of};
use crate::version::{semver_version, Version};

verus! {

/// The text that `String::from_utf8_lossy` reads in bytes.
pub uninterp spec fn utf8_lossy(bytes: Seq<u8>) -> Seq<char>;

/// Calls `String::from_utf8_lossy` and copies the text it returns. The
/// result is, by definition, `utf8_lossy` of the bytes; bytes that are
/// UTF-8 are read as the text they encode.
#[verifier::external_body]
fn lossy_text(bytes: &[u8]) -> (r: String)
    ensures
        r@ == utf8_lossy(bytes@),
        valid_utf8(bytes@) ==> r@ == decode_utf8(bytes@),
{
    String::from_utf8_lossy(bytes).into_owned()
}

/// Calls `std::str::from_utf8` and copies the text it returns: the text
/// that the bytes encode, where they are UTF-8, else nothing.
#[verifier::external_body]
fn strict_text(bytes: &[u8]) -> (r: Option<String>)
    ensures
        r is Some == valid_utf8(bytes@),
        r matches Some(s) ==> s@ == decode_utf8(bytes@),
{
    match std::str::from_utf8(bytes) {
        Ok(s) => Some(s.to_owned()),
        Err(_) => None,
    }
}

/// The index of the last character that is no white space; -1 where there
/// is none.
pub open spec fn last_mark(text: Seq<char>) -> int
    decreases text.len(),
{
    if text.len() == 0 {
        -1
    } else if !is_whitespace(text.last()) {
        text.len() - 1
    } else {
        last_mark(text.drop_last())
    }
}

/// The index at which the line that holds index `i` starts.
pub open spec fn line_start(text: Seq<char>, i: int) -> int
    decreases i,
{
    if i <= 0 || i > text.len() {
        0
    } else if text[i - 1] == '\n' {
        i
    } else {
        line_start(text, i - 1)
    }
}

/// The index of the line feed that ends the line which holds index `i`;
/// the length of the text where the line is the last and has no line feed.
pub open spec fn line_end(text: Seq<char>, i: int) -> int
    decreases text.len() - i,
{
    if i < 0 || i >= text.len() {
        text.len() as int
    } else if text[i] == '\n' {
        i
    } else {
        line_end(text, i + 1)
    }
}

/// The last line that is not blank: the line that holds the last
/// character which is no white space. A line ends before a line feed, or
/// before a carriage return and a line feed, or with the text. `None`
/// where the text is blank.
pub open spec fn last_line(text: Seq<char>) -> Option<Seq<char>> {
    let mark = last_mark(text);
    if mark < 0 {
        None
    } else {
        let from = line_start(text, mark);
        let feed = line_end(text, mark);
        let to = if feed < text.len() && text[feed - 1] == '\r' {
            feed - 1
        } else {
            feed
        };
        Some(text.subrange(from, to))
    }
}

/// The text without `prefix` at its start, as often as it stands there.
pub open spec fn without_prefixes(text: Seq<char>, prefix: Seq<char>) -> Seq<char>
    decreases text.len(),
{
    if prefix.len() > 0 && occurs_at(text, 0, prefix) {
        without_prefixes(text.skip(prefix.len() as int), prefix)
    } else {
        text
    }
}

/// The text with `to` in place of `from`, wherever `from` stands; the
/// text is gone through from its start, and what was replaced is not
/// looked at again.
pub open spec fn replaced(text: Seq<char>, from: Seq<char>, to: Seq<char>) -> Seq<char>
    decreases text.len(),
{
    if text.len() == 0 {
        text
    } else if from.len() > 0 && occurs_at(text, 0, from) {
        to + replaced(text.skip(from.len() as int), from, to)
    } else {
        seq![text[0]] + replaced(text.skip(1), from, to)
    }
}

/// The text of the version in what the compiler prints for `--version`:
/// the last line that is not blank, without the words `Version: ` before
/// it, and with `.gcc` where the compiler wrote `.g++`, which no build
/// metadata may hold.
pub open spec fn version_text(stdout: Seq<char>) -> Option<Seq<char>> {
    match last_line(stdout) {
        None => None,
        Some(line) => Some(replaced(without_prefixes(line, "Version: "@), ".g++"@, ".gcc"@)),
    }
}

proof fn lemma_last_mark(text: Seq<char>, n: int)
    requires
        0 <= n <= text.len(),
        forall|i: int| n <= i < text.len() ==> is_whitespace(#[trigger] text[i]),
    ensures
        last_mark(text) == last_mark(text.take(n)),
    decreases text.len() - n,
{
    if n < text.len() {
        assert(text.drop_last().take(n) =~= text.take(n));
        lemma_last_mark(text.drop_last(), n);
    } else {
        assert(text.take(n) =~= text);
    }
}

proof fn lemma_occurs_at_skip(text: Seq<char>, at: int, pattern: Seq<char>)
    requires
        0 <= at <= text.len(),
    ensures
        occurs_at(text, at, pattern) == occurs_at(text.skip(at), 0, pattern),
{
    if at + pattern.len() <= text.len() {
        assert(text.skip(at).subrange(0, pattern.len() as int) =~= text.subrange(
            at,
            at + pattern.len(),
        ));
    }
}

fn copy_range(text: &[char], from: usize, to: usize) -> (r: Vec<char>)
    requires
        from <= to <= text.len(),
    ensures
        r@ == text@.subrange(from as int, to as int),
{
    let mut out: Vec<char> = Vec::new();
    let mut k: usize = from;
    while k < to
        invariant
            from <= k <= to <= text.len(),
            out@ == text@.subrange(from as int, k as int),
        decreases to - k,
    {
        out.push(text[k]);
        proof {
            assert(text@.subrange(from as int, k + 1) =~= text@.subrange(
                from as int,
                k as int,
            ).push(text@[k as int]));
        }
        k += 1;
    }
    out
}

/// The last line of `text` that is not blank.
pub fn last_nonblank_line(text: &[char]) -> (r: Option<Vec<char>>)
    ensures
        match r {
            Some(line) => last_line(text@) == Some(line@),
            None => last_line(text@).is_none(),
        },
{
    let mut n: usize = text.len();
    while n > 0 && is_whitespace_char(text[n - 1])
        invariant
            n <= text.len(),
            forall|i: int| n <= i < text.len() ==> is_whitespace(#[trigger] text@[i]),
        decreases n,
    {
        n -= 1;
    }
    proof {
        lemma_last_mark(text@, n as int);
        if n > 0 {
            assert(text@.take(n as int).last() == text@[n - 1]);
        }
    }
    if n == 0 {
        return None;
    }
    let mark: usize = n - 1;
    let mut from: usize = mark;
    while from > 0 && text[from - 1] != '\n'
        invariant
            from <= mark < text.len(),
            line_start(text@, mark as int) == line_start(text@, from as int),
        decreases from,
    {
        from -= 1;
    }
    let mut feed: usize = mark;
    while feed < text.len() && text[feed] != '\n'
        invariant
            mark <= feed <= text.len(),
            line_end(text@, mark as int) == line_end(text@, feed as int),
        decreases text.len() - feed,
    {
        feed += 1;
    }
    let to: usize = if feed < text.len() && text[feed - 1] == '\r' {
        feed - 1
    } else {
        feed
    };
    Some(copy_range(text, from, to))
}

/// Where `text` goes on behind the `prefix` that it starts with, as often
/// as it stands there.
fn skip_prefixes(text: &[char], prefix: &[char]) -> (r: usize)
    ensures
        r <= text.len(),
        text@.skip(r as int) == without_prefixes(text@, prefix@),
{
    let mut p: usize = 0;
    proof {
        assert(text@.skip(0) == text@);
    }
    if prefix.len() == 0 {
        return 0;
    }
    while has_at(text, p, prefix)
        invariant
            p <= text.len(),
            prefix.len() > 0,
            without_prefixes(text@, prefix@) == without_prefixes(text@.skip(p as int), prefix@),
        decreases text.len() - p,
    {
        proof {
            lemma_occurs_at_skip(text@, p as int, prefix@);
            assert(text@.skip(p as int).skip(prefix.len() as int) == text@.skip(
                p + prefix.len(),
            ));
        }
        p += prefix.len();
    }
    proof {
        lemma_occurs_at_skip(text@, p as int, prefix@);
    }
    p
}

/// The text behind index `start` with `to` in place of `from`.
fn replace_from(text: &[char], start: usize, from: &[char], to: &[char]) -> (r: Vec<char>)
    requires
        start <= text.len(),
    ensures
        r@ == replaced(text@.skip(start as int), from@, to@),
{
    let mut out: Vec<char> = Vec::new();
    let mut i: usize = start;
    while i < text.len()
        invariant
            start <= i <= text.len(),
            replaced(text@.skip(start as int), from@, to@) == out@ + replaced(
                text@.skip(i as int),
                from@,
                to@,
            ),
        decreases text.len() - i,
    {
        proof {
            lemma_occurs_at_skip(text@, i as int, from@);
        }
        let ghost rest = text@.skip(i as int);
        let ghost before = out@;
        if from.len() > 0 && has_at(text, i, from) {
            let mut k: usize = 0;
            while k < to.len()
                invariant
                    k <= to.len(),
                    out@ == before + to@.take(k as int),
                decreases to.len() - k,
            {
                out.push(to[k]);
                proof {
                    assert(to@.take(k + 1) =~= to@.take(k as int).push(to@[k as int]));
                }
                k += 1;
            }
            proof {
                assert(to@.take(to.len() as int) == to@);
                assert(rest.skip(from.len() as int) == text@.skip(i + from.len()));
                assert(before + (to@ + replaced(rest.skip(from.len() as int), from@, to@)) =~= (before
                    + to@) + replaced(rest.skip(from.len() as int), from@, to@));
            }
            i += from.len();
        } else {
            out.push(text[i]);
            proof {
                assert(rest[0] == text@[i as int]);
                assert(rest.skip(1) == text@.skip(i + 1));
                assert(before + (seq![rest[0]] + replaced(rest.skip(1), from@, to@)) =~= before.push(
                    rest[0],
                ) + replaced(rest.skip(1), from@, to@));
            }
            i += 1;
        }
    }
    proof {
        assert(text@.skip(text.len() as int) =~= Seq::<char>::empty());
        assert(out@ + Seq::<char>::empty() =~= out@);
    }
    out
}

/// Picks the text of the version out of what the compiler prints for
/// `--version`; `None` where it printed nothing but white space.
pub fn version_line(stdout: &str) -> (r: Option<String>)
    ensures
        match r {
            Some(t) => version_text(stdout@) == Some(t@),
            None => version_text(stdout@).is_none(),
        },
{
    let text = chars_of(stdout);
    match last_nonblank_line(text.as_slice()) {
        None => None,
        Some(line) => {
            let prefix = chars_of("Version: ");
            let from = chars_of(".g++");
            let to = chars_of(".gcc");
            let start = skip_prefixes(line.as_slice(), prefix.as_slice());
            let out = replace_from(line.as_slice(), start, from.as_slice(), to.as_slice());
            Some(string_of(out.as_slice()))
        },
    }
}

/// Whether `result` is what a compiler run that ended as `output` gives:
/// its standard output where it succeeded, else the error that keeps what
/// the process left behind.
pub open spec fn compiled(result: Result<Vec<u8>, SolcError>, output: Output) -> bool {
    if output.succeeded() {
        result matches Ok(bytes) && bytes@ == output.stdout@
    } else {
        failed(result, output)
    }
}

/// Whether `result` is the error for the run that ended as `output`.
pub open spec fn failed<T>(result: Result<T, SolcError>, output: Output) -> bool {
    result matches Err(SolcError::InvocationFailed { stdout, stderr, status }) && stdout@
        == output.stdout@ && stderr@ == output.stderr@ && status == output.status
}

/// Whether `result` is what a run of `--version` that ended as `output`
/// gives: the error for a failed run; else the version that `semver` reads
/// in the text of the version, or an error where the output is blank or
/// `semver` refuses the text.
pub open spec fn version_reported(result: Result<Version, SolcError>, output: Output) -> bool {
    if !output.succeeded() {
        failed(result, output)
    } else {
        match version_text(utf8_lossy(output.stdout@)) {
            None => result matches Err(SolcError::Message(m)) && m@
                == "Version not found in Solc output"@,
            Some(text) => match semver_version(text) {
                Some(v) => result matches Ok(version) && version@ == v,
                None => result matches Err(SolcError::VersionParseError(_)),
            },
        }
    }
}

/// The standard output of a compiler run that succeeded; the error for
/// one that did not.
pub fn compile_output(output: Output) -> (r: Result<Vec<u8>, SolcError>)
    ensures
        compiled(r, output),
{
    if output.success() {
        Ok(output.stdout)
    } else {
        Err(SolcError::solc_output(&output))
    }
}

/// The version that a run of `--version` reported.
pub fn version_from_output(output: Output) -> (r: Result<Version, SolcError>)
    ensures
        version_reported(r, output),
{
    if output.success() {
        let stdout = lossy_text(output.stdout.as_slice());
        match version_line(stdout.as_str()) {
            None => Err(SolcError::msg("Version not found in Solc output")),
            Some(text) => match Version::parse(text.as_str()) {
                Ok(version) => Ok(version),
                Err(e) => Err(SolcError::VersionParseError(e)),
            },
        }
    } else {
        Err(SolcError::solc_output(&output))
    }
}

/// The text of a compiler's output, which has to be UTF-8.
pub fn utf8_output(output: &[u8]) -> (r: Result<String, SolcError>)
    ensures
        match r {
            Ok(text) => valid_utf8(output@) && text@ == decode_utf8(output@),
            Err(e) => !valid_utf8(output@) && e matches SolcError::InvalidUtf8,
        },
{
    match strict_text(output) {
        Some(text) => Ok(text),
        None => Err(SolcError::InvalidUtf8),
    }
}

} // verus!
