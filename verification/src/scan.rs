use vstd::prelude::*;

use crate::strutil::string_from_range;

verus! {

// Character classes of the task and plan grammars.

pub open spec fn is_space_char(c: char) -> bool {
    c == ' ' || c == '\t' || c == '\r' || c == '\n'
}

pub open spec fn is_ident_start_char(c: char) -> bool {
    ('a' as u32 <= c as u32 && c as u32 <= 'z' as u32) || ('A' as u32 <= c as u32 && c as u32
        <= 'Z' as u32) || c == '_'
}

pub open spec fn is_ident_char(c: char) -> bool {
    is_ident_start_char(c) || ('0' as u32 <= c as u32 && c as u32 <= '9' as u32)
}

fn is_space(c: char) -> (r: bool)
    ensures
        r == is_space_char(c),
{
    c == ' ' || c == '\t' || c == '\r' || c == '\n'
}

fn is_ident_start(c: char) -> (r: bool)
    ensures
        r == is_ident_start_char(c),
{
    let u = c as u32;
    (97 <= u && u <= 122) || (65 <= u && u <= 90) || c == '_'
}

fn is_ident(c: char) -> (r: bool)
    ensures
        r == is_ident_char(c),
{
    let u = c as u32;
    is_ident_start(c) || (48 <= u && u <= 57)
}

// Whitespace and block comments (`/* ... */`) separate tokens and are
// otherwise ignored.  An unterminated comment swallows the rest of the
// input.

pub open spec fn spec_skip_trivia(s: Seq<char>, i: int, in_comment: bool) -> int
    decreases s.len() - i,
{
    if i < 0 || i >= s.len() {
        if in_comment {
            s.len() as int
        } else {
            i
        }
    } else if in_comment {
        if s[i] == '*' && i + 1 < s.len() && s[i + 1] == '/' {
            spec_skip_trivia(s, i + 2, false)
        } else {
            spec_skip_trivia(s, i + 1, true)
        }
    } else if is_space_char(s[i]) {
        spec_skip_trivia(s, i + 1, false)
    } else if s[i] == '/' && i + 1 < s.len() && s[i + 1] == '*' {
        spec_skip_trivia(s, i + 2, true)
    } else {
        i
    }
}

pub proof fn lemma_skip_trivia_bounds(s: Seq<char>, i: int, in_comment: bool)
    requires
        0 <= i <= s.len(),
    ensures
        i <= spec_skip_trivia(s, i, in_comment) <= s.len(),
    decreases s.len() - i,
{
    if i < s.len() {
        if in_comment {
            if s[i] == '*' && i + 1 < s.len() && s[i + 1] == '/' {
                lemma_skip_trivia_bounds(s, i + 2, false);
            } else {
                lemma_skip_trivia_bounds(s, i + 1, true);
            }
        } else if is_space_char(s[i]) {
            lemma_skip_trivia_bounds(s, i + 1, false);
        } else if s[i] == '/' && i + 1 < s.len() && s[i + 1] == '*' {
            lemma_skip_trivia_bounds(s, i + 2, true);
        }
    }
}

fn skip_trivia_rec(s: &Vec<char>, pos: usize, in_comment: bool) -> (r: usize)
    requires
        pos <= s@.len(),
    ensures
        r == spec_skip_trivia(s@, pos as int, in_comment),
        pos <= r <= s@.len(),
    decreases s@.len() - pos,
{
    if pos >= s.len() {
        if in_comment {
            s.len()
        } else {
            pos
        }
    } else if in_comment {
        if s[pos] == '*' && pos + 1 < s.len() && s[pos + 1] == '/' {
            skip_trivia_rec(s, pos + 2, false)
        } else {
            skip_trivia_rec(s, pos + 1, true)
        }
    } else if is_space(s[pos]) {
        skip_trivia_rec(s, pos + 1, false)
    } else if s[pos] == '/' && pos + 1 < s.len() && s[pos + 1] == '*' {
        skip_trivia_rec(s, pos + 2, true)
    } else {
        pos
    }
}

/// Advance past whitespace and comments, starting outside any comment.
pub fn skip_trivia(s: &Vec<char>, pos: usize) -> (r: usize)
    requires
        pos <= s@.len(),
    ensures
        r == spec_skip_trivia(s@, pos as int, false),
        pos <= r <= s@.len(),
{
    skip_trivia_rec(s, pos, false)
}

// Identifiers: an ASCII letter or underscore, then letters, digits and
// underscores.

pub open spec fn spec_ident_end(s: Seq<char>, i: int) -> int
    decreases s.len() - i,
{
    if 0 <= i < s.len() && is_ident_char(s[i]) {
        spec_ident_end(s, i + 1)
    } else {
        i
    }
}

/// Whether an identifier starts at position `i`.
pub open spec fn spec_has_ident(s: Seq<char>, i: int) -> bool {
    0 <= i < s.len() && is_ident_start_char(s[i])
}

/// The identifier text starting at `i` (meaningful when `spec_has_ident`).
pub open spec fn spec_ident_text(s: Seq<char>, i: int) -> Seq<char> {
    s.subrange(i, spec_ident_end(s, i))
}

pub proof fn lemma_ident_end_bounds(s: Seq<char>, i: int)
    requires
        0 <= i <= s.len(),
    ensures
        i <= spec_ident_end(s, i) <= s.len(),
        spec_has_ident(s, i) ==> i < spec_ident_end(s, i),
    decreases s.len() - i,
{
    if i < s.len() && is_ident_char(s[i]) {
        lemma_ident_end_bounds(s, i + 1);
    }
}

fn ident_end(s: &Vec<char>, pos: usize) -> (r: usize)
    requires
        pos <= s@.len(),
    ensures
        r == spec_ident_end(s@, pos as int),
        pos <= r <= s@.len(),
    decreases s@.len() - pos,
{
    if pos < s.len() && is_ident(s[pos]) {
        ident_end(s, pos + 1)
    } else {
        pos
    }
}

/// Scan the identifier starting at `pos`, if there is one.
pub fn scan_ident(s: &Vec<char>, pos: usize) -> (r: Option<(String, usize)>)
    requires
        pos <= s@.len(),
    ensures
        match r {
            Some((text, end)) => spec_has_ident(s@, pos as int) && text@ == spec_ident_text(
                s@,
                pos as int,
            ) && end == spec_ident_end(s@, pos as int) && pos < end <= s@.len(),
            None => !spec_has_ident(s@, pos as int),
        },
{
    if pos < s.len() && is_ident_start(s[pos]) {
        let end = ident_end(s, pos);
        proof {
            lemma_ident_end_bounds(s@, pos as int);
        }
        let text = string_from_range(s, pos, end);
        Some((text, end))
    } else {
        None
    }
}

// String literals: single-quoted, double-quoted, or triple-quoted with
// `'''`.  All three produce the text between the delimiters; no escape
// sequences exist.  The triple-quoted form is tried first, as the other
// two cannot begin with three quote characters.

pub open spec fn spec_find_char(s: Seq<char>, i: int, c: char) -> Option<int>
    decreases s.len() - i,
{
    if i < 0 || i >= s.len() {
        None
    } else if s[i] == c {
        Some(i)
    } else {
        spec_find_char(s, i + 1, c)
    }
}

pub proof fn lemma_find_char_props(s: Seq<char>, i: int, c: char)
    requires
        0 <= i,
    ensures
        match spec_find_char(s, i, c) {
            Some(j) => i <= j < s.len() && s[j] == c && forall|k: int| i <= k < j ==> s[k] != c,
            None => forall|k: int| i <= k < s.len() ==> s[k] != c,
        },
    decreases s.len() - i,
{
    if i < s.len() && s[i] != c {
        lemma_find_char_props(s, i + 1, c);
    }
}

pub proof fn lemma_find_char_of_first(s: Seq<char>, i: int, j: int, c: char)
    requires
        0 <= i <= j < s.len(),
        s[j] == c,
        forall|k: int| i <= k < j ==> s[k] != c,
    ensures
        spec_find_char(s, i, c) == Some(j),
    decreases j - i,
{
    if i < j {
        lemma_find_char_of_first(s, i + 1, j, c);
    }
}

/// Whether the three characters at `k` are `'''`.
pub open spec fn spec_triple_at(s: Seq<char>, k: int) -> bool {
    0 <= k && k + 3 <= s.len() && s[k] == '\'' && s[k + 1] == '\'' && s[k + 2] == '\''
}

pub open spec fn spec_find_triple(s: Seq<char>, i: int) -> Option<int>
    decreases s.len() - i,
{
    if i < 0 || i + 3 > s.len() {
        None
    } else if spec_triple_at(s, i) {
        Some(i)
    } else {
        spec_find_triple(s, i + 1)
    }
}

pub proof fn lemma_find_triple_props(s: Seq<char>, i: int)
    requires
        0 <= i,
    ensures
        match spec_find_triple(s, i) {
            Some(j) => i <= j && spec_triple_at(s, j) && forall|k: int|
                i <= k < j ==> !spec_triple_at(s, k),
            None => forall|k: int| i <= k ==> !spec_triple_at(s, k),
        },
    decreases s.len() - i,
{
    if !(i < 0 || i + 3 > s.len()) && !spec_triple_at(s, i) {
        lemma_find_triple_props(s, i + 1);
    }
}

pub proof fn lemma_find_triple_of_first(s: Seq<char>, i: int, j: int)
    requires
        0 <= i <= j,
        spec_triple_at(s, j),
        forall|k: int| i <= k < j ==> !spec_triple_at(s, k),
    ensures
        spec_find_triple(s, i) == Some(j),
    decreases j - i,
{
    if i < j {
        lemma_find_triple_of_first(s, i + 1, j);
    }
}

/// The string literal starting at `i`: its text and the position just
/// after the closing delimiter.
pub open spec fn spec_scan_string(s: Seq<char>, i: int) -> Option<(Seq<char>, int)> {
    if spec_triple_at(s, i) && spec_find_triple(s, i + 3) is Some {
        let j = spec_find_triple(s, i + 3)->0;
        Some((s.subrange(i + 3, j), j + 3))
    } else if 0 <= i < s.len() && s[i] == '\'' {
        match spec_find_char(s, i + 1, '\'') {
            Some(j) => Some((s.subrange(i + 1, j), j + 1)),
            None => None,
        }
    } else if 0 <= i < s.len() && s[i] == '"' {
        match spec_find_char(s, i + 1, '"') {
            Some(j) => Some((s.subrange(i + 1, j), j + 1)),
            None => None,
        }
    } else {
        None
    }
}

pub proof fn lemma_scan_string_bounds(s: Seq<char>, i: int)
    requires
        0 <= i,
    ensures
        match spec_scan_string(s, i) {
            Some(r) => i + 2 <= r.1 <= s.len(),
            None => true,
        },
{
    if spec_triple_at(s, i) && spec_find_triple(s, i + 3) is Some {
        lemma_find_triple_props(s, i + 3);
    } else if 0 <= i < s.len() && s[i] == '\'' {
        lemma_find_char_props(s, i + 1, '\'');
    } else if 0 <= i < s.len() && s[i] == '"' {
        lemma_find_char_props(s, i + 1, '"');
    }
}

pub fn find_char(s: &Vec<char>, pos: usize, c: char) -> (r: Option<usize>)
    ensures
        match r {
            Some(j) => spec_find_char(s@, pos as int, c) == Some(j as int) && pos <= j < s@.len(),
            None => spec_find_char(s@, pos as int, c) is None,
        },
    decreases s@.len() - pos,
{
    if pos >= s.len() {
        None
    } else if s[pos] == c {
        Some(pos)
    } else {
        find_char(s, pos + 1, c)
    }
}

fn triple_at(s: &Vec<char>, pos: usize) -> (r: bool)
    ensures
        r == spec_triple_at(s@, pos as int),
{
    let n = s.len();
    pos < n && n - pos >= 3 && s[pos] == '\'' && s[pos + 1] == '\'' && s[pos + 2] == '\''
}

fn find_triple(s: &Vec<char>, pos: usize) -> (r: Option<usize>)
    ensures
        match r {
            Some(j) => spec_find_triple(s@, pos as int) == Some(j as int) && pos <= j && j + 3
                <= s@.len(),
            None => spec_find_triple(s@, pos as int) is None,
        },
    decreases s@.len() - pos,
{
    let n = s.len();
    if pos >= n || n - pos < 3 {
        None
    } else if triple_at(s, pos) {
        Some(pos)
    } else {
        find_triple(s, pos + 1)
    }
}

/// Scan the string literal starting at `pos`, if there is one.
pub fn scan_string(s: &Vec<char>, pos: usize) -> (r: Option<(String, usize)>)
    requires
        pos <= s@.len(),
    ensures
        match r {
            Some((text, end)) => spec_scan_string(s@, pos as int) == Some((text@, end as int))
                && pos < end <= s@.len(),
            None => spec_scan_string(s@, pos as int) is None,
        },
{
    proof {
        lemma_scan_string_bounds(s@, pos as int);
    }
    let n = s.len();
    if triple_at(s, pos) {
        match find_triple(s, pos + 3) {
            Some(j) => {
                let text = string_from_range(s, pos + 3, j);
                return Some((text, j + 3));
            }
            None => {}
        }
    }
    if pos < s.len() && s[pos] == '\'' {
        match find_char(s, pos + 1, '\'') {
            Some(j) => {
                let text = string_from_range(s, pos + 1, j);
                Some((text, j + 1))
            }
            None => None,
        }
    } else if pos < s.len() && s[pos] == '"' {
        match find_char(s, pos + 1, '"') {
            Some(j) => {
                let text = string_from_range(s, pos + 1, j);
                Some((text, j + 1))
            }
            None => None,
        }
    } else {
        None
    }
}

/// Trivia skipping stays put on anything that is neither whitespace
/// nor a comment opener.
pub proof fn lemma_trivia_at_token(s: Seq<char>, i: int)
    requires
        0 <= i <= s.len(),
        i == s.len() || (!is_space_char(s[i]) && s[i] != '/'),
    ensures
        spec_skip_trivia(s, i, false) == i,
{
}

/// A single space before a token is all that trivia skipping consumes.
pub proof fn lemma_trivia_space_then_token(s: Seq<char>, i: int)
    requires
        0 <= i < s.len(),
        s[i] == ' ',
        i + 1 == s.len() || (!is_space_char(s[i + 1]) && s[i + 1] != '/'),
    ensures
        spec_skip_trivia(s, i, false) == i + 1,
{
    lemma_trivia_at_token(s, i + 1);
}

/// An identifier ends exactly at the first non-identifier character.
pub proof fn lemma_ident_ends(s: Seq<char>, i: int, j: int)
    requires
        0 <= i <= j <= s.len(),
        forall|k: int| i <= k < j ==> is_ident_char(s[k]),
        j == s.len() || !is_ident_char(s[j]),
    ensures
        spec_ident_end(s, i) == j,
    decreases j - i,
{
    if i < j {
        lemma_ident_ends(s, i + 1, j);
    }
}

/// A single-quoted literal whose body holds no quote scans to exactly
/// that body.
pub proof fn lemma_scan_single_quoted(s: Seq<char>, i: int, j: int)
    requires
        0 <= i < j < s.len(),
        s[i] == '\'',
        s[j] == '\'',
        forall|k: int| i < k < j ==> s[k] != '\'',
        !spec_triple_at(s, i),
    ensures
        spec_scan_string(s, i) == Some((s.subrange(i + 1, j), j + 1)),
{
    lemma_find_char_of_first(s, i + 1, j, '\'');
}

/// Quoting invariance: a text free of quote characters scans to the very
/// same value whether it is written single-quoted, double-quoted or
/// triple-quoted.
pub proof fn lemma_quoting_invariant(t: Seq<char>)
    requires
        forall|k: int| 0 <= k < t.len() ==> t[k] != '\'',
        forall|k: int| 0 <= k < t.len() ==> t[k] != '"',
    ensures
        spec_scan_string(seq!['\''] + t + seq!['\''], 0) == Some((t, t.len() as int + 2)),
        spec_scan_string(seq!['"'] + t + seq!['"'], 0) == Some((t, t.len() as int + 2)),
        spec_scan_string(seq!['\'', '\'', '\''] + t + seq!['\'', '\'', '\''], 0) == Some(
            (t, t.len() as int + 6),
        ),
{
    let n = t.len() as int;
    let sq = seq!['\''] + t + seq!['\''];
    let dq = seq!['"'] + t + seq!['"'];
    let tq = seq!['\'', '\'', '\''] + t + seq!['\'', '\'', '\''];

    // Single quotes: the closing quote is the first quote after position 0.
    assert(sq.len() == n + 2);
    assert(sq[0] == '\'');
    assert(sq[n + 1] == '\'');
    assert(forall|k: int| 1 <= k < n + 1 ==> sq[k] == t[k - 1]);
    assert(!spec_triple_at(sq, 0)) by {
        if n >= 1 {
            assert(sq[1] == t[0]);
        }
    }
    lemma_find_char_of_first(sq, 1, n + 1, '\'');
    assert(sq.subrange(1, n + 1) =~= t);

    // Double quotes, the same way.
    assert(dq.len() == n + 2);
    assert(dq[0] == '"');
    assert(dq[n + 1] == '"');
    assert(forall|k: int| 1 <= k < n + 1 ==> dq[k] == t[k - 1]);
    assert(!spec_triple_at(dq, 0));
    lemma_find_char_of_first(dq, 1, n + 1, '"');
    assert(dq.subrange(1, n + 1) =~= t);

    // Triple quotes: no position inside the text starts three quotes.
    assert(tq.len() == n + 6);
    assert(forall|k: int| 3 <= k < n + 3 ==> tq[k] == t[k - 3]);
    assert(spec_triple_at(tq, 0));
    assert(spec_triple_at(tq, n + 3));
    assert(forall|k: int| 3 <= k < n + 3 ==> !spec_triple_at(tq, k)) by {
        assert(forall|k: int| 3 <= k < n + 3 ==> tq[k] != '\'');
    }
    lemma_find_triple_of_first(tq, 3, n + 3);
    assert(tq.subrange(3, n + 3) =~= t);
}

} // verus!
