//! Searching and splitting text, with the CRLF line framing of the wire
//! protocol.
use vstd::prelude::*;

verus! {

/// The index of the first `c` in `s`, or `s.len()` when there is none.
pub open spec fn first_of(s: Seq<char>, c: char) -> int
    decreases s.len(),
{
    if s.len() == 0 {
        0
    } else if s[0] == c {
        0
    } else {
        1 + first_of(s.drop_first(), c)
    }
}

/// Whether a line terminator `"\r\n"` starts at index `k` of `s`.
pub open spec fn is_crlf_at(s: Seq<char>, k: int) -> bool {
    0 <= k && k + 1 < s.len() && s[k] == '\r' && s[k + 1] == '\n'
}

/// The index of the first line terminator in `s`, or `s.len()` when there is none.
pub open spec fn first_crlf(s: Seq<char>) -> int
    decreases s.len(),
{
    if s.len() < 2 {
        s.len() as int
    } else if s[0] == '\r' && s[1] == '\n' {
        0
    } else {
        1 + first_crlf(s.drop_first())
    }
}

/// `s` with every line terminator at its end taken off.
pub open spec fn trim_crlf(s: Seq<char>) -> Seq<char>
    decreases s.len(),
{
    if is_crlf_at(s, s.len() - 2) {
        trim_crlf(s.subrange(0, s.len() - 2))
    } else {
        s
    }
}

/// The pieces of `s` between line terminators, in order.
pub open spec fn split_crlf(s: Seq<char>) -> Seq<Seq<char>>
    decreases s.len(),
{
    let i = first_crlf(s);
    if 0 <= i && i + 2 <= s.len() {
        seq![s.subrange(0, i)] + split_crlf(s.subrange(i + 2, s.len() as int))
    } else {
        seq![s]
    }
}

/// The logical lines that a transport frame carries: the terminators at its end
/// are dropped and the rest is split at each terminator.
pub open spec fn frame_lines(frame: Seq<char>) -> Seq<Seq<char>> {
    split_crlf(trim_crlf(frame))
}

/// Whether `s` holds no line terminator.
pub open spec fn has_no_crlf(s: Seq<char>) -> bool {
    forall|k: int| !is_crlf_at(s, k)
}

/// `first_of` lies within the sequence.
pub proof fn lemma_first_of_bounds(s: Seq<char>, c: char)
    ensures
        0 <= first_of(s, c) <= s.len(),
    decreases s.len(),
{
    if s.len() > 0 && s[0] != c {
        lemma_first_of_bounds(s.drop_first(), c);
    }
}

/// Pins `first_of` down by what it means.
pub proof fn lemma_first_of(s: Seq<char>, c: char, r: int)
    requires
        0 <= r <= s.len(),
        forall|k: int| 0 <= k < r ==> s[k] != c,
        r == s.len() || s[r] == c,
    ensures
        first_of(s, c) == r,
    decreases s.len(),
{
    if s.len() > 0 && r > 0 {
        let t = s.drop_first();
        assert forall|k: int| 0 <= k < r - 1 implies t[k] != c by {
            assert(s[k + 1] != c);
        }
        lemma_first_of(t, c, r - 1);
    }
}

/// Pins `first_crlf` down by what it means.
pub proof fn lemma_first_crlf(s: Seq<char>, r: int)
    requires
        0 <= r <= s.len(),
        forall|k: int| 0 <= k < r ==> !is_crlf_at(s, k),
        r == s.len() || is_crlf_at(s, r),
        r == s.len() ==> has_no_crlf(s),
    ensures
        first_crlf(s) == r,
    decreases s.len(),
{
    if s.len() >= 2 && r > 0 {
        let t = s.drop_first();
        assert(!is_crlf_at(s, 0));
        assert forall|k: int| 0 <= k < r - 1 implies !is_crlf_at(t, k) by {
            assert(!is_crlf_at(s, k + 1));
        }
        if r == s.len() {
            assert forall|k: int| !is_crlf_at(t, k) by {
                assert(!is_crlf_at(s, k + 1));
            }
        }
        lemma_first_crlf(t, r - 1);
    } else if s.len() < 2 && r == 0 && s.len() > 0 {
        assert(is_crlf_at(s, 0) ==> false);
    }
}

/// The index of the first `c` in `s`, or its length when there is none.
pub fn find_char(s: &str, c: char) -> (r: usize)
    ensures
        r == first_of(s@, c),
        r <= s@.len(),
{
    let n = s.unicode_len();
    let mut i: usize = 0;
    while i < n
        invariant
            n == s@.len(),
            i <= n,
            forall|k: int| 0 <= k < i ==> s@[k] != c,
        decreases n - i,
    {
        if s.get_char(i) == c {
            proof {
                lemma_first_of(s@, c, i as int);
            }
            return i;
        }
        i = i + 1;
    }
    proof {
        lemma_first_of(s@, c, i as int);
    }
    i
}

/// The index of the first line terminator in `s`, or its length when there is
/// none.
pub fn find_crlf(s: &str) -> (r: usize)
    ensures
        r == first_crlf(s@),
        r <= s@.len(),
{
    let n = s.unicode_len();
    let mut i: usize = 0;
    while n - i > 1
        invariant
            n == s@.len(),
            i <= n,
            forall|k: int| 0 <= k < i ==> !is_crlf_at(s@, k),
        decreases n - i,
    {
        if s.get_char(i) == '\r' && s.get_char(i + 1) == '\n' {
            proof {
                lemma_first_crlf(s@, i as int);
            }
            return i;
        }
        i = i + 1;
    }
    proof {
        assert forall|k: int| !is_crlf_at(s@, k) by {
            if 0 <= k < i {
            }
        }
        lemma_first_crlf(s@, n as int);
    }
    n
}

/// A frame made of two lines joined by one terminator, neither of which holds
/// a terminator itself and the second not empty, carries exactly those two
/// lines, in order.
pub proof fn lemma_two_line_frame(l1: Seq<char>, l2: Seq<char>)
    requires
        has_no_crlf(l1),
        has_no_crlf(l2),
        l2.len() > 0,
    ensures
        frame_lines(l1 + seq!['\r', '\n'] + l2) == seq![l1, l2],
{
    let f = l1 + seq!['\r', '\n'] + l2;
    let n1 = l1.len() as int;
    assert(!is_crlf_at(f, f.len() - 2)) by {
        if l2.len() == 1 {
            assert(f[f.len() - 2] == '\n');
        } else {
            assert(!is_crlf_at(l2, l2.len() - 2));
        }
    }
    assert(trim_crlf(f) == f);
    assert forall|k: int| 0 <= k < n1 implies !is_crlf_at(f, k) by {
        if k + 1 < n1 {
            assert(!is_crlf_at(l1, k));
        } else {
            assert(f[k + 1] == '\r');
        }
    }
    assert(is_crlf_at(f, n1));
    lemma_first_crlf(f, n1);
    assert(f.subrange(0, n1) =~= l1);
    assert(f.subrange(n1 + 2, f.len() as int) =~= l2);
    lemma_first_crlf(l2, l2.len() as int);
    assert(split_crlf(l2) == seq![l2]);
    assert(split_crlf(f) =~= seq![l1, l2]);
}

/// The text of each string of `v`, in order.
pub open spec fn strings_view(v: Seq<String>) -> Seq<Seq<char>> {
    v.map_values(|x: String| x@)
}

/// Splits a transport frame into its logical lines: terminators at its end are
/// dropped, and each remaining terminator separates two lines. A frame with no
/// terminator is one line.
pub fn split_frame(frame: &str) -> (r: Vec<String>)
    ensures
        strings_view(r@) == frame_lines(frame@),
{
    let n = frame.unicode_len();
    let mut end: usize = n;
    proof {
        assert(frame@.subrange(0, n as int) =~= frame@);
    }
    while end >= 2 && frame.get_char(end - 2) == '\r' && frame.get_char(end - 1) == '\n'
        invariant
            n == frame@.len(),
            end <= n,
            trim_crlf(frame@.subrange(0, end as int)) == trim_crlf(frame@),
        decreases end,
    {
        proof {
            let s = frame@.subrange(0, end as int);
            assert(s.subrange(0, s.len() - 2) =~= frame@.subrange(0, end - 2));
        }
        end = end - 2;
    }
    let t = frame.substring_char(0, end);
    let mut rest: &str = t;
    let mut out: Vec<String> = Vec::new();
    loop
        invariant_except_break
            strings_view(out@) + split_crlf(rest@) == split_crlf(t@),
        ensures
            strings_view(out@) == split_crlf(t@),
        decreases rest@.len(),
    {
        let i = find_crlf(rest);
        let m = rest.unicode_len();
        if m >= 2 && i <= m - 2 {
            let line = String::from_str(rest.substring_char(0, i));
            let next = rest.substring_char(i + 2, m);
            proof {
                assert(split_crlf(rest@) == seq![line@] + split_crlf(next@));
                assert(strings_view(out@.push(line)) =~= strings_view(out@).push(line@));
                assert(strings_view(out@).push(line@) + split_crlf(next@)
                    =~= strings_view(out@) + (seq![line@] + split_crlf(next@)));
            }
            out.push(line);
            rest = next;
        } else {
            let line = String::from_str(rest);
            proof {
                assert(split_crlf(rest@) == seq![rest@]);
                assert(strings_view(out@.push(line)) =~= strings_view(out@) + seq![rest@]);
            }
            out.push(line);
            break;
        }
    }
    out
}

} // verus!
