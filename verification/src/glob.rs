//! Patterns with wildcards.
//!
//! In a pattern `*` stands for any run of characters, the empty one too,
//! and `?` for any one character. Every other character stands for itself.
//! A pattern matches a text as a whole, not a part of it.

use crate::text::chars_of;
use vstd::prelude::*;

verus! {

/// Whether `pattern` matches `text`.
pub open spec fn glob_matches(pattern: Seq<char>, text: Seq<char>) -> bool
    decreases pattern.len(), text.len(),
{
    if pattern.len() == 0 {
        text.len() == 0
    } else if pattern[0] == '*' {
        glob_matches(pattern.drop_first(), text) || (text.len() > 0 && glob_matches(
            pattern,
            text.drop_first(),
        ))
    } else if text.len() == 0 {
        false
    } else if pattern[0] == '?' || pattern[0] == text[0] {
        glob_matches(pattern.drop_first(), text.drop_first())
    } else {
        false
    }
}

/// Whether `pattern` matches `text`, both given character by character.
pub fn glob_match_chars(pattern: &Vec<char>, text: &Vec<char>) -> (found: bool)
    ensures
        found == glob_matches(pattern@, text@),
{
    let n = text.len();
    let m = pattern.len();
    let ghost p = pattern@;
    let ghost t = text@;
    // `row[j]` says whether the pattern from `i` on matches the text from `j` on.
    let mut row: Vec<bool> = Vec::new();
    let mut j: usize = 0;
    while j < n
        invariant
            j <= n,
            n == t.len(),
            m == p.len(),
            row@.len() == j,
            forall|k: int| 0 <= k < j ==> row@[k] == glob_matches(p.skip(m as int), t.skip(k)),
        decreases n - j,
    {
        proof {
            assert(p.skip(m as int).len() == 0);
            assert(t.skip(j as int).len() > 0);
        }
        row.push(false);
        j = j + 1;
    }
    proof {
        assert(p.skip(m as int).len() == 0);
        assert(t.skip(n as int).len() == 0);
    }
    row.push(true);
    let mut i: usize = m;
    while i > 0
        invariant
            i <= m,
            n == t.len(),
            m == p.len(),
            p == pattern@,
            t == text@,
            row@.len() == n + 1,
            forall|k: int| 0 <= k <= n ==> row@[k] == glob_matches(p.skip(i as int), t.skip(k)),
        decreases i,
    {
        i = i - 1;
        let c = pattern[i];
        let width: usize = row.len();
        let mut next: Vec<bool> = Vec::new();
        while next.len() < width
            invariant
                next@.len() <= width,
            decreases width - next@.len(),
        {
            next.push(false);
        }
        let mut j: usize = width;
        while j > 0
            invariant
                j <= n + 1,
                i < m,
                n == t.len(),
                m == p.len(),
                p == pattern@,
                t == text@,
                c == p[i as int],
                row@.len() == n + 1,
                next@.len() == n + 1,
                forall|k: int|
                    0 <= k <= n ==> row@[k] == glob_matches(p.skip(i + 1), t.skip(k)),
                forall|k: int|
                    j <= k <= n ==> next@[k] == glob_matches(p.skip(i as int), t.skip(k)),
            decreases j,
        {
            j = j - 1;
            let value = if c == '*' {
                row[j] || (j < n && next[j + 1])
            } else if j == n {
                false
            } else if c == '?' || c == text[j] {
                row[j + 1]
            } else {
                false
            };
            proof {
                let ps = p.skip(i as int);
                let ts = t.skip(j as int);
                assert(ps.len() > 0 && ps[0] == c);
                assert(ps.drop_first() =~= p.skip(i + 1));
                assert(ts.len() == n - j);
                if j < n {
                    assert(ts[0] == t[j as int]);
                    assert(ts.drop_first() =~= t.skip(j + 1));
                }
                assert(value == glob_matches(ps, ts));
            }
            next.set(j, value);
        }
        row = next;
    }
    proof {
        assert(p.skip(0) =~= p);
        assert(t.skip(0) =~= t);
    }
    row[0]
}

/// A pattern that was read once and is matched against many texts.
#[derive(Debug, Clone, PartialEq, Eq)]
pub struct GlobPattern {
    pattern: Vec<char>,
}

impl View for GlobPattern {
    type V = Seq<char>;

    closed spec fn view(&self) -> Seq<char> {
        self.pattern@
    }
}

impl GlobPattern {
    /// Reads a pattern.
    pub fn compile(pattern: &str) -> (glob: GlobPattern)
        ensures
            glob@ == pattern@,
    {
        GlobPattern { pattern: chars_of(pattern) }
    }

    /// Whether the pattern matches the text of the characters `text`.
    pub fn matches_chars(&self, text: &Vec<char>) -> (found: bool)
        ensures
            found == glob_matches(self@, text@),
    {
        glob_match_chars(&self.pattern, text)
    }

    /// Whether the pattern matches `value`.
    pub fn matches(&self, value: &str) -> (found: bool)
        ensures
            found == glob_matches(self@, value@),
    {
        let text = chars_of(value);
        glob_match_chars(&self.pattern, &text)
    }
}

} // verus!
