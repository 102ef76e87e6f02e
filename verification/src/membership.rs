//! The membership table's text format.
//!
//! A membership table is plain text: one record per line, each line holding
//! at least two whitespace-separated fields. Field 1 is the centroid
//! identifier, field 2 the member identifier; any further fields are
//! ignored. Lines are separated by `'\n'`, and a final `'\r'` on a line
//! (a Windows line ending) is not part of the record. A trailing newline
//! does not open an empty final line.
//!
//! This module defines the format mathematically (`split_lines`, `tokens`)
//! and provides verified splitting functions that match those definitions
//! exactly.

use vstd::prelude::*;
use vstd::math::min;

verus! {

/// The views of a sequence of strings.
pub open spec fn string_views(v: Seq<String>) -> Seq<Seq<char>> {
    v.map_values(|s: String| s@)
}

/// The whitespace characters that separate fields within a line.
pub open spec fn is_space(c: char) -> bool {
    c == ' ' || c == '\t' || c == '\n' || c == '\r' || c == '\u{000B}' || c == '\u{000C}'
}

/// Decides whether `c` separates fields.
pub fn is_space_char(c: char) -> (r: bool)
    ensures
        r == is_space(c),
{
    c == ' ' || c == '\t' || c == '\n' || c == '\r' || c == '\u{000B}' || c == '\u{000C}'
}

/// The index of the first `'\n'` in `t`, or `t.len()` when there is none.
pub open spec fn line_break(t: Seq<char>) -> nat
    decreases t.len(),
{
    if t.len() == 0 {
        0
    } else if t[0] == '\n' {
        0
    } else {
        1 + line_break(t.subrange(1, t.len() as int))
    }
}

/// Pins `line_break(t)` down to `m` when the characters before `m` are
/// not newlines and `m` is a newline or the end.
pub proof fn lemma_line_break_is(t: Seq<char>, m: nat)
    requires
        m <= t.len(),
        forall|j: int| 0 <= j < m ==> t[j] != '\n',
        m < t.len() ==> t[m as int] == '\n',
    ensures
        line_break(t) == m,
    decreases m,
{
    if m == 0 {
    } else {
        let tail = t.subrange(1, t.len() as int);
        assert(t[0] != '\n');
        assert forall|j: int| 0 <= j < m - 1 implies tail[j] != '\n' by {
            assert(tail[j] == t[j + 1]);
        }
        assert(m - 1 < tail.len() ==> tail[m - 1] == t[m as int]);
        lemma_line_break_is(tail, (m - 1) as nat);
    }
}

/// A line without its trailing `'\r'`, if it carries one.
pub open spec fn strip_cr(l: Seq<char>) -> Seq<char> {
    if l.len() > 0 && l.last() == '\r' {
        l.drop_last()
    } else {
        l
    }
}

/// The lines of a text: split on `'\n'`, each line stripped of a final
/// `'\r'`; a trailing newline does not open an empty final line.
pub open spec fn split_lines(t: Seq<char>) -> Seq<Seq<char>>
    decreases t.len(),
{
    if t.len() == 0 {
        Seq::empty()
    } else {
        let b = line_break(t);
        if b >= t.len() {
            seq![strip_cr(t)]
        } else {
            seq![strip_cr(t.subrange(0, b as int))] + split_lines(
                t.subrange(b as int + 1, t.len() as int),
            )
        }
    }
}

/// The length of the leading run of non-space characters of `l`.
pub open spec fn token_end(l: Seq<char>) -> nat
    decreases l.len(),
{
    if l.len() == 0 {
        0
    } else if is_space(l[0]) {
        0
    } else {
        1 + token_end(l.subrange(1, l.len() as int))
    }
}

/// `token_end` measures the leading token: nothing before it is a space,
/// and it lands on a space unless the line ends first.
pub proof fn lemma_token_end(l: Seq<char>)
    ensures
        token_end(l) <= l.len(),
        forall|j: int| 0 <= j < token_end(l) ==> !is_space(l[j]),
        token_end(l) < l.len() ==> is_space(l[token_end(l) as int]),
    decreases l.len(),
{
    if l.len() > 0 && !is_space(l[0]) {
        let tail = l.subrange(1, l.len() as int);
        lemma_token_end(tail);
        assert forall|j: int| 0 <= j < token_end(l) implies !is_space(l[j]) by {
            if j > 0 {
                assert(tail[j - 1] == l[j]);
            }
        }
    }
}

/// Pins `token_end(l)` down to `m` when the characters before `m` are not
/// spaces and `m` is a space or the end.
pub proof fn lemma_token_end_is(l: Seq<char>, m: nat)
    requires
        m <= l.len(),
        forall|j: int| 0 <= j < m ==> !is_space(l[j]),
        m < l.len() ==> is_space(l[m as int]),
    ensures
        token_end(l) == m,
    decreases m,
{
    if m == 0 {
    } else {
        let tail = l.subrange(1, l.len() as int);
        assert(!is_space(l[0]));
        assert forall|j: int| 0 <= j < m - 1 implies !is_space(tail[j]) by {
            assert(tail[j] == l[j + 1]);
        }
        assert(m - 1 < tail.len() ==> tail[m - 1] == l[m as int]);
        lemma_token_end_is(tail, (m - 1) as nat);
    }
}

/// The whitespace-separated fields of a line, in order.
pub open spec fn tokens(l: Seq<char>) -> Seq<Seq<char>>
    decreases l.len(),
{
    if l.len() == 0 {
        Seq::empty()
    } else if is_space(l[0]) {
        tokens(l.subrange(1, l.len() as int))
    } else {
        let j = min(token_end(l) as int, l.len() as int);
        seq![l.subrange(0, j)] + tokens(l.subrange(j, l.len() as int))
    }
}

/// Unfolds `tokens` at a line that starts with a token.
pub proof fn lemma_tokens_head(l: Seq<char>)
    requires
        l.len() > 0,
        !is_space(l[0]),
    ensures
        tokens(l) == seq![l.subrange(0, token_end(l) as int)] + tokens(
            l.subrange(token_end(l) as int, l.len() as int),
        ),
{
    lemma_token_end(l);
}

/// A record line: at least two fields, a centroid identifier and a
/// member identifier.
pub open spec fn line_well_formed(l: Seq<char>) -> bool {
    tokens(l).len() >= 2
}

/// The centroid identifier of a well-formed line.
pub open spec fn line_key(l: Seq<char>) -> Seq<char> {
    tokens(l)[0]
}

/// The member identifier of a well-formed line.
pub open spec fn line_member(l: Seq<char>) -> Seq<char> {
    tokens(l)[1]
}

/// Splits a line into its whitespace-separated fields.
pub fn split_fields(line: &str) -> (r: Vec<String>)
    ensures
        string_views(r@) =~= tokens(line@),
{
    let n = line.unicode_len();
    let mut fields: Vec<String> = Vec::new();
    proof {
        assert(line@.subrange(0, n as int) =~= line@);
        assert(string_views(fields@) + tokens(line@) =~= tokens(line@));
    }
    let mut i: usize = 0;
    while i < n
        invariant
            i <= n,
            n == line@.len(),
            string_views(fields@) + tokens(line@.subrange(i as int, n as int)) =~= tokens(line@),
        decreases n - i,
    {
        let c = line.get_char(i);
        if is_space_char(c) {
            proof {
                let rest = line@.subrange(i as int, n as int);
                assert(rest[0] == line@[i as int]);
                assert(rest.subrange(1, rest.len() as int) =~= line@.subrange(
                    i as int + 1,
                    n as int,
                ));
            }
            i = i + 1;
        } else {
            let mut j: usize = i + 1;
            while j < n && !is_space_char(line.get_char(j))
                invariant
                    i < j <= n,
                    n == line@.len(),
                    !is_space(line@[i as int]),
                    forall|k: int| i <= k < j ==> !is_space(line@[k]),
                decreases n - j,
            {
                j = j + 1;
            }
            let field = String::from_str(line.substring_char(i, j));
            proof {
                let rest = line@.subrange(i as int, n as int);
                let m = (j - i) as nat;
                assert forall|k: int| 0 <= k < m implies !is_space(rest[k]) by {
                    assert(rest[k] == line@[i + k]);
                }
                assert(m < rest.len() ==> rest[m as int] == line@[j as int]);
                lemma_token_end_is(rest, m);
                lemma_tokens_head(rest);
                assert(rest.subrange(0, m as int) =~= line@.subrange(i as int, j as int));
                assert(rest.subrange(m as int, rest.len() as int) =~= line@.subrange(
                    j as int,
                    n as int,
                ));
                assert(string_views(fields@.push(field)) =~= string_views(fields@).push(field@));
            }
            fields.push(field);
            i = j;
        }
    }
    proof {
        assert(line@.subrange(n as int, n as int) =~= Seq::<char>::empty());
        assert(string_views(fields@) + Seq::<Seq<char>>::empty() =~= string_views(fields@));
    }
    fields
}

/// Splits a text into its lines.
pub fn split_into_lines(text: &str) -> (r: Vec<String>)
    ensures
        string_views(r@) =~= split_lines(text@),
{
    let n = text.unicode_len();
    let mut lines: Vec<String> = Vec::new();
    proof {
        assert(text@.subrange(0, n as int) =~= text@);
        assert(string_views(lines@) + split_lines(text@) =~= split_lines(text@));
    }
    let mut i: usize = 0;
    while i < n
        invariant
            i <= n,
            n == text@.len(),
            string_views(lines@) + split_lines(text@.subrange(i as int, n as int)) =~= split_lines(
                text@,
            ),
        decreases n - i,
    {
        let mut j: usize = i;
        while j < n && text.get_char(j) != '\n'
            invariant
                i <= j <= n,
                n == text@.len(),
                forall|k: int| i <= k < j ==> text@[k] != '\n',
            decreases n - j,
        {
            j = j + 1;
        }
        let end = if j > i && text.get_char(j - 1) == '\r' {
            j - 1
        } else {
            j
        };
        let line = String::from_str(text.substring_char(i, end));
        proof {
            let rest = text@.subrange(i as int, n as int);
            let m = (j - i) as nat;
            assert forall|k: int| 0 <= k < m implies rest[k] != '\n' by {
                assert(rest[k] == text@[i + k]);
            }
            assert(m < rest.len() ==> rest[m as int] == text@[j as int]);
            lemma_line_break_is(rest, m);
            let raw = rest.subrange(0, m as int);
            assert(raw =~= text@.subrange(i as int, j as int));
            if j > i && text@[j as int - 1] == '\r' {
                assert(raw.last() == text@[j as int - 1]);
                assert(strip_cr(raw) =~= text@.subrange(i as int, j as int - 1));
            } else {
                if raw.len() > 0 {
                    assert(raw.last() == text@[j as int - 1]);
                }
                assert(strip_cr(raw) =~= raw);
            }
            if m < rest.len() {
                assert(rest.subrange(m as int + 1, rest.len() as int) =~= text@.subrange(
                    j as int + 1,
                    n as int,
                ));
            } else {
                assert(raw =~= rest);
            }
            assert(string_views(lines@.push(line)) =~= string_views(lines@).push(line@));
        }
        lines.push(line);
        if j < n {
            i = j + 1;
        } else {
            i = n;
        }
    }
    proof {
        assert(text@.subrange(n as int, n as int) =~= Seq::<char>::empty());
        assert(string_views(lines@) + Seq::<Seq<char>>::empty() =~= string_views(lines@));
    }
    lines
}

} // verus!
