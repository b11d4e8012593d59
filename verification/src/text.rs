//! Text as sequences of characters: blanks, trimming, prefixes and
//! suffixes.

use vstd::prelude::*;
use vstd::std_specs::iter::IteratorSpec;

verus! {

/// `String::push` appends one character to the end of the string.
pub assume_specification[ String::push ](s: &mut String, c: char)
    ensures
        final(s)@ == old(s)@.push(c),
;

/// The characters of `s`, in order.
pub fn chars_of(s: &str) -> (r: Vec<char>)
    ensures
        r@ == s@,
{
    let n = s.unicode_len();
    let mut out: Vec<char> = Vec::new();
    let mut it = s.chars();
    let mut i: usize = 0;
    while i < n
        invariant
            n == s@.len(),
            i <= n,
            out@ == s@.take(i as int),
            it.remaining() == s@.skip(i as int),
        decreases n - i,
    {
        let c = it.next();
        out.push(c.unwrap());
        i += 1;
    }
    out
}

/// The string made of the characters `v`.
pub fn string_of(v: &[char]) -> (r: String)
    ensures
        r@ == v@,
{
    let mut out = String::new();
    let mut i: usize = 0;
    while i < v.len()
        invariant
            i <= v.len(),
            out@ == v@.take(i as int),
        decreases v.len() - i,
    {
        out.push(v[i]);
        i += 1;
    }
    out
}

/// The characters that Unicode calls white space.
pub open spec fn is_whitespace(c: char) -> bool {
    let n = c as u32;
    (0x09 <= n <= 0x0d) || n == 0x20 || n == 0x85 || n == 0xa0 || n == 0x1680 || (0x2000 <= n
        <= 0x200a) || n == 0x2028 || n == 0x2029 || n == 0x202f || n == 0x205f || n == 0x3000
}

/// Whether `c` is white space.
pub fn is_whitespace_char(c: char) -> (r: bool)
    ensures
        r == is_whitespace(c),
{
    let n: u32 = c as u32;
    (0x09 <= n && n <= 0x0d) || n == 0x20 || n == 0x85 || n == 0xa0 || n == 0x1680 || (0x2000 <= n
        && n <= 0x200a) || n == 0x2028 || n == 0x2029 || n == 0x202f || n == 0x205f || n == 0x3000
}

/// The text without the white space it starts with.
pub open spec fn trim_start(s: Seq<char>) -> Seq<char>
    decreases s.len(),
{
    if s.len() > 0 && is_whitespace(s[0]) {
        trim_start(s.drop_first())
    } else {
        s
    }
}

/// The text without the white space it ends with.
pub open spec fn trim_end(s: Seq<char>) -> Seq<char>
    decreases s.len(),
{
    if s.len() > 0 && is_whitespace(s.last()) {
        trim_end(s.drop_last())
    } else {
        s
    }
}

/// The text without the white space at either end.
pub open spec fn trim(s: Seq<char>) -> Seq<char> {
    trim_end(trim_start(s))
}

/// Whether `pattern` stands in `s` at index `at`.
pub open spec fn occurs_at(s: Seq<char>, at: int, pattern: Seq<char>) -> bool {
    0 <= at && at + pattern.len() <= s.len() && s.subrange(at, at + pattern.len()) == pattern
}

/// Whether `pattern` stands in `s` at index `at`.
pub fn has_at(s: &[char], at: usize, pattern: &[char]) -> (r: bool)
    ensures
        r == occurs_at(s@, at as int, pattern@),
{
    if at > s.len() || pattern.len() > s.len() - at {
        return false;
    }
    let mut k: usize = 0;
    while k < pattern.len()
        invariant
            at + pattern.len() <= s.len(),
            k <= pattern.len(),
            forall|j: int| 0 <= j < k ==> s@[at + j] == pattern@[j],
        decreases pattern.len() - k,
    {
        if s[at + k] != pattern[k] {
            proof {
                assert(s@.subrange(at as int, at + pattern.len())[k as int] == s@[at + k]);
            }
            return false;
        }
        k += 1;
    }
    proof {
        assert(s@.subrange(at as int, at + pattern.len()) =~= pattern@);
    }
    true
}

/// The white space at the start of `s` can be skipped one character at a
/// time.
pub proof fn lemma_trim_start_skip(s: Seq<char>, n: int)
    requires
        0 <= n <= s.len(),
        forall|i: int| 0 <= i < n ==> is_whitespace(#[trigger] s[i]),
    ensures
        trim_start(s) == trim_start(s.skip(n)),
    decreases n,
{
    if n > 0 {
        assert(s.drop_first().skip(n - 1) =~= s.skip(n));
        lemma_trim_start_skip(s.drop_first(), n - 1);
    } else {
        assert(s.skip(0) =~= s);
    }
}

/// The white space at the end of `s` can be dropped one character at a
/// time.
pub proof fn lemma_trim_end_take(s: Seq<char>, n: int)
    requires
        0 <= n <= s.len(),
        forall|i: int| n <= i < s.len() ==> is_whitespace(#[trigger] s[i]),
    ensures
        trim_end(s) == trim_end(s.take(n)),
    decreases s.len() - n,
{
    if n < s.len() {
        assert(s.drop_last().take(n) =~= s.take(n));
        lemma_trim_end_take(s.drop_last(), n);
    } else {
        assert(s.take(n) =~= s);
    }
}

/// The characters of `s` without the white space at either end.
pub fn trimmed(s: &[char]) -> (r: Vec<char>)
    ensures
        r@ == trim(s@),
{
    let mut a: usize = 0;
    while a < s.len() && is_whitespace_char(s[a])
        invariant
            a <= s.len(),
            forall|i: int| 0 <= i < a ==> is_whitespace(#[trigger] s@[i]),
        decreases s.len() - a,
    {
        a += 1;
    }
    let mut b: usize = s.len();
    while b > a && is_whitespace_char(s[b - 1])
        invariant
            a <= b <= s.len(),
            forall|i: int| b <= i < s.len() ==> is_whitespace(#[trigger] s@[i]),
        decreases b,
    {
        b -= 1;
    }
    let mut out: Vec<char> = Vec::new();
    let mut i: usize = a;
    while i < b
        invariant
            a <= i <= b <= s.len(),
            out@ == s@.subrange(a as int, i as int),
        decreases b - i,
    {
        out.push(s[i]);
        proof {
            assert(s@.subrange(a as int, i + 1) =~= s@.subrange(a as int, i as int).push(
                s@[i as int],
            ));
        }
        i += 1;
    }
    proof {
        let t = s@.skip(a as int);
        lemma_trim_start_skip(s@, a as int);
        assert(trim_start(s@) == t) by {
            if a < s.len() {
                assert(t[0] == s@[a as int]);
            }
        }
        assert forall|i: int| b - a <= i < t.len() implies is_whitespace(#[trigger] t[i]) by {
            assert(t[i] == s@[a + i]);
        }
        lemma_trim_end_take(t, b - a);
        assert(t.take(b - a) =~= s@.subrange(a as int, b as int));
        let u = t.take(b - a);
        assert(trim_end(u) == u) by {
            if u.len() > 0 {
                assert(u.last() == s@[b - 1]);
            }
        }
    }
    out
}

/// The ten digits.
pub open spec fn digits() -> Seq<char> {
    seq!['0', '1', '2', '3', '4', '5', '6', '7', '8', '9']
}

/// The number in decimal writing, without leading zeros.
pub open spec fn decimal(n: nat) -> Seq<char>
    decreases n,
{
    if n < 10 {
        seq![digits()[n as int]]
    } else {
        decimal(n / 10).push(digits()[(n % 10) as int])
    }
}

fn digit_char(d: u64) -> (r: char)
    requires
        d < 10,
    ensures
        r == digits()[d as int],
{
    if d == 0 {
        '0'
    } else if d == 1 {
        '1'
    } else if d == 2 {
        '2'
    } else if d == 3 {
        '3'
    } else if d == 4 {
        '4'
    } else if d == 5 {
        '5'
    } else if d == 6 {
        '6'
    } else if d == 7 {
        '7'
    } else if d == 8 {
        '8'
    } else {
        '9'
    }
}

/// The number in decimal writing.
pub fn decimal_text(n: u64) -> (r: String)
    ensures
        r@ == decimal(n as nat),
{
    let mut low: Vec<char> = Vec::new();
    let mut m: u64 = n;
    while m >= 10
        invariant
            decimal(n as nat) == decimal(m as nat) + low@.reverse(),
        decreases m,
    {
        let ghost before = low@;
        low.push(digit_char(m % 10));
        proof {
            assert(low@.reverse() =~= seq![digits()[(m % 10) as int]] + before.reverse());
            assert(decimal(m as nat) == decimal((m / 10) as nat).push(digits()[(m % 10) as int]));
            assert(decimal((m / 10) as nat).push(digits()[(m % 10) as int]) + before.reverse()
                =~= decimal((m / 10) as nat) + low@.reverse());
        }
        m = m / 10;
    }
    let ghost before = low@;
    low.push(digit_char(m));
    proof {
        assert(low@.reverse() =~= seq![digits()[m as int]] + before.reverse());
        assert(decimal(m as nat) + before.reverse() =~= low@.reverse());
    }
    let mut out = String::new();
    let mut i: usize = low.len();
    while i > 0
        invariant
            i <= low.len(),
            out@ == low@.reverse().take(low.len() - i),
        decreases i,
    {
        i -= 1;
        out.push(low[i]);
        proof {
            assert(low@.reverse().take(low.len() - i) =~= low@.reverse().take(
                low.len() - i - 1,
            ).push(low@[i as int]));
        }
    }
    proof {
        assert(low@.reverse().take(low.len() as int) == low@.reverse());
    }
    out
}

} // verus!
