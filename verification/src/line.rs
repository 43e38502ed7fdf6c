//! Splitting a text stream into lines and stripping line terminators.
//!
//! A line ends at the first `'\n'`, which belongs to the line, or at the end
//! of the stream when no `'\n'` remains.  Normalization removes a trailing
//! two-character `"\r\n"` terminator if present, otherwise a trailing
//! single-character terminator if present, and never touches
//! terminator-like characters in the middle of a line.

use vstd::prelude::*;
use vstd::string::StrSliceExecFns;

verus! {

/// Length of the first line of `s`, counting its `'\n'` terminator when one
/// is present; the whole of `s` when it holds no `'\n'`.
pub open spec fn first_line_len(s: Seq<char>) -> int
    decreases s.len(),
{
    if s.len() == 0 {
        0
    } else if s[0] == '\n' {
        1
    } else {
        1 + first_line_len(s.skip(1))
    }
}

/// The first line of `s`, including its terminator when one is present.
pub open spec fn first_line(s: Seq<char>) -> Seq<char> {
    s.take(first_line_len(s))
}

/// What remains of `s` after its first line has been consumed.
pub open spec fn rest_after_line(s: Seq<char>) -> Seq<char> {
    s.skip(first_line_len(s))
}

/// Strip a trailing `"\r\n"` if present, else a trailing `'\n'` or `'\r'`
/// if present, else nothing.
pub open spec fn strip_terminator(line: Seq<char>) -> Seq<char> {
    if line.len() >= 2 && line[line.len() - 2] == '\r' && line[line.len() - 1] == '\n' {
        line.take(line.len() - 2)
    } else if line.len() >= 1 && (line[line.len() - 1] == '\n' || line[line.len() - 1] == '\r') {
        line.take(line.len() - 1)
    } else {
        line
    }
}

/// The first line of `s` with its terminator stripped: the text that is
/// handed to the target type's parser.
pub open spec fn normalized_first_line(s: Seq<char>) -> Seq<char> {
    strip_terminator(first_line(s))
}

/// A scan that saw no `'\n'` strictly before position `i` pins down the
/// first line's length: it is `i + 1` when `s[i]` is `'\n'`, and the whole
/// of `s` when the scan ran off the end.
pub proof fn lemma_first_line_len_scan(s: Seq<char>, i: int)
    requires
        0 <= i <= s.len(),
        forall|j: int| 0 <= j < i ==> s[j] != '\n',
    ensures
        i == s.len() ==> first_line_len(s) == s.len(),
        i < s.len() && s[i] == '\n' ==> first_line_len(s) == i + 1,
    decreases i,
{
    if i > 0 {
        assert(s[0] != '\n');
        assert(forall|j: int| 0 <= j < i - 1 ==> s.skip(1)[j] != '\n');
        lemma_first_line_len_scan(s.skip(1), i - 1);
    }
}

/// Appending a line terminator and stripping it again gives the text back,
/// whatever the text holds — except that text ending in `'\r'` followed by
/// a bare `'\n'` would form a two-character terminator, so that case is
/// left out.
pub proof fn lemma_strip_appended_terminator(t: Seq<char>, term: Seq<char>)
    requires
        term == seq!['\n'] || term == seq!['\r', '\n'],
        term == seq!['\n'] && t.len() > 0 ==> t.last() != '\r',
    ensures
        strip_terminator(t + term) == t,
{
    let s = t + term;
    if term == seq!['\n'] {
        assert(s.len() == t.len() + 1);
        assert(s[s.len() - 1] == '\n');
        if s.len() >= 2 {
            assert(s[s.len() - 2] == t.last());
        }
        assert(s.take(s.len() - 1) =~= t);
    } else {
        assert(s.len() == t.len() + 2);
        assert(s[s.len() - 2] == '\r' && s[s.len() - 1] == '\n');
        assert(s.take(s.len() - 2) =~= t);
    }
}

/// A stream opening with one terminated line of terminator-free text splits
/// at that line: the first line is the text with its terminator, and the
/// rest follows it untouched.
pub proof fn lemma_first_line_of_terminated(t: Seq<char>, term: Seq<char>, rest: Seq<char>)
    requires
        forall|i: int| 0 <= i < t.len() ==> t[i] != '\n',
        term == seq!['\n'] || term == seq!['\r', '\n'],
    ensures
        first_line(t + term + rest) == t + term,
        rest_after_line(t + term + rest) == rest,
{
    let s = t + term + rest;
    let k = (t + term).len() - 1;
    assert(s[k] == '\n');
    assert(forall|j: int| 0 <= j < k ==> s[j] != '\n');
    lemma_first_line_len_scan(s, k);
    assert(first_line_len(s) == k + 1);
    assert(s.take(k + 1) =~= t + term);
    assert(s.skip(k + 1) =~= rest);
}

/// Strip the line terminator from one acquired line: remove a trailing
/// `"\r\n"` if present, else a trailing `'\n'` or `'\r'` if present, else
/// return the text unchanged.
pub fn strip_line_terminator(line: &str) -> (r: &str)
    ensures
        r@ == strip_terminator(line@),
{
    let n = line.unicode_len();
    if n >= 2 {
        let c1 = line.get_char(n - 2);
        let c2 = line.get_char(n - 1);
        if c1 == '\r' && c2 == '\n' {
            let r = line.substring_char(0, n - 2);
            assert(r@ =~= strip_terminator(line@));
            return r;
        }
        if c2 == '\n' || c2 == '\r' {
            let r = line.substring_char(0, n - 1);
            assert(r@ =~= strip_terminator(line@));
            return r;
        }
        return line;
    }
    if n == 1 {
        let c = line.get_char(0);
        if c == '\n' || c == '\r' {
            let r = line.substring_char(0, 0);
            assert(r@ =~= strip_terminator(line@));
            return r;
        }
    }
    line
}

} // verus!
