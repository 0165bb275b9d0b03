//! Lines in a byte stream: where the first one ends, and how much of a stream
//! is made of complete lines.

use vstd::prelude::*;

verus! {

/// The byte that ends a line.
pub const NEWLINE: u8 = 10;

/// Some byte of `s` is a newline.
pub open spec fn has_newline(s: Seq<u8>) -> bool {
    exists|i: int| 0 <= i < s.len() && s[i] == NEWLINE
}

/// `p` is the position of the first newline of `s`.
pub open spec fn is_first_newline(s: Seq<u8>, p: int) -> bool {
    &&& 0 <= p < s.len()
    &&& s[p] == NEWLINE
    &&& forall|j: int| 0 <= j < p ==> s[j] != NEWLINE
}

/// The position of the first newline of `s`, if it has one.
pub open spec fn first_newline(s: Seq<u8>) -> Option<int> {
    if has_newline(s) {
        Some(choose|p: int| is_first_newline(s, p))
    } else {
        None
    }
}

/// The length of the longest prefix of `s` that is made of complete lines:
/// one past the last newline, or zero where there is none.
pub open spec fn lines_end(s: Seq<u8>) -> int
    decreases s.len(),
{
    if s.len() == 0 {
        0
    } else if s.last() == NEWLINE {
        s.len() as int
    } else {
        lines_end(s.drop_last())
    }
}

/// The complete lines of `s`: everything up to and including its last newline.
pub open spec fn complete_lines(s: Seq<u8>) -> Seq<u8> {
    s.take(lines_end(s))
}

/// How many newlines `s` holds, which is how many lines it completes.
pub open spec fn count_newlines(s: Seq<u8>) -> nat
    decreases s.len(),
{
    if s.len() == 0 {
        0
    } else if s.last() == NEWLINE {
        count_newlines(s.drop_last()) + 1
    } else {
        count_newlines(s.drop_last())
    }
}

/// A sequence with a newline at `i` has a first newline, at or before `i`.
pub proof fn lemma_first_newline_exists(s: Seq<u8>, i: int)
    requires
        0 <= i < s.len(),
        s[i] == NEWLINE,
    ensures
        exists|p: int| 0 <= p <= i && is_first_newline(s, p),
    decreases i,
{
    if exists|j: int| 0 <= j < i && s[j] == NEWLINE {
        let j = choose|j: int| 0 <= j < i && s[j] == NEWLINE;
        lemma_first_newline_exists(s, j);
    } else {
        assert(is_first_newline(s, i));
    }
}

/// `first_newline` is `Some(p)` exactly where `p` is the first newline.
pub proof fn lemma_first_newline(s: Seq<u8>, p: int)
    ensures
        first_newline(s) == Some(p) <==> is_first_newline(s, p),
        first_newline(s) is None <==> !has_newline(s),
{
    if has_newline(s) {
        let i = choose|i: int| 0 <= i < s.len() && s[i] == NEWLINE;
        lemma_first_newline_exists(s, i);
    }
}

/// The complete lines of `s` end within `s`, and where there are any they
/// end with a newline.
pub proof fn lemma_lines_end_bounds(s: Seq<u8>)
    ensures
        0 <= lines_end(s) <= s.len(),
        lines_end(s) > 0 ==> s[lines_end(s) - 1] == NEWLINE,
        forall|j: int| lines_end(s) <= j < s.len() ==> s[j] != NEWLINE,
    decreases s.len(),
{
    if s.len() > 0 && s.last() != NEWLINE {
        lemma_lines_end_bounds(s.drop_last());
        assert forall|j: int| lines_end(s) <= j < s.len() implies s[j] != NEWLINE by {
            if j < s.len() - 1 {
                assert(s.drop_last()[j] == s[j]);
            }
        }
    }
}

/// A newline at `i` completes a line: the complete lines of `s` reach past
/// it.
pub proof fn lemma_lines_end_past_newline(s: Seq<u8>, i: int)
    requires
        0 <= i < s.len(),
        s[i] == NEWLINE,
    ensures
        i < lines_end(s),
{
    lemma_lines_end_bounds(s);
}

/// Bytes without a newline that follow `a` complete no further line.
pub proof fn lemma_lines_end_rest(a: Seq<u8>, b: Seq<u8>)
    requires
        !has_newline(b),
    ensures
        lines_end(a + b) == lines_end(a),
    decreases b.len(),
{
    if b.len() > 0 {
        assert((a + b).drop_last() == a + b.drop_last());
        lemma_lines_end_rest(a, b.drop_last());
    }
}

/// Bytes that follow `a` leave the lines that `a` completed complete.
pub proof fn lemma_lines_end_grows(a: Seq<u8>, b: Seq<u8>)
    ensures
        lines_end(a) <= lines_end(a + b),
{
    lemma_lines_end_bounds(a);
    if lines_end(a) > 0 {
        lemma_lines_end_past_newline(a + b, lines_end(a) - 1);
    } else {
        lemma_lines_end_bounds(a + b);
    }
}

/// The complete lines of `s` hold every newline of `s`: as many lines as
/// `s` completes.
pub proof fn lemma_complete_lines_count(s: Seq<u8>)
    ensures
        count_newlines(complete_lines(s)) == count_newlines(s),
    decreases s.len(),
{
    if s.len() > 0 {
        if s.last() == NEWLINE {
            assert(complete_lines(s) == s);
        } else {
            lemma_complete_lines_count(s.drop_last());
            lemma_lines_end_bounds(s.drop_last());
            assert(complete_lines(s) == complete_lines(s.drop_last()));
        }
    }
}

/// The position of the first newline of `buf`, or `None` where it has none.
pub fn find_newline(buf: &[u8]) -> (found: Option<usize>)
    ensures
        found matches Some(p) ==> is_first_newline(buf@, p as int),
        found is None ==> !has_newline(buf@),
        first_newline(buf@) == (match found {
            Some(p) => Some(p as int),
            None => None,
        }),
{
    let mut i: usize = 0;
    while i < buf.len()
        invariant
            0 <= i <= buf.len(),
            forall|j: int| 0 <= j < i ==> buf@[j] != NEWLINE,
        decreases buf.len() - i,
    {
        if buf[i] == NEWLINE {
            proof {
                lemma_first_newline(buf@, i as int);
            }
            return Some(i);
        }
        i += 1;
    }
    proof {
        lemma_first_newline(buf@, 0);
    }
    None
}

} // verus!
