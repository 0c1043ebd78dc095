//! Text operations over character sequences: trimming whitespace, searching
//! for and replacing a substring.
use vstd::prelude::*;
use crate::chars::{white_space, char_is_whitespace};
use crate::strings::copy_range;

verus! {

/// `s` without its leading whitespace.
pub open spec fn trim_start(s: Seq<char>) -> Seq<char>
    decreases s.len(),
{
    if s.len() > 0 && white_space(s[0]) {
        trim_start(s.drop_first())
    } else {
        s
    }
}

/// `s` without its trailing whitespace.
pub open spec fn trim_end(s: Seq<char>) -> Seq<char>
    decreases s.len(),
{
    if s.len() > 0 && white_space(s.last()) {
        trim_end(s.drop_last())
    } else {
        s
    }
}

/// `s` without leading and trailing whitespace (what `str::trim` keeps).
pub open spec fn trim(s: Seq<char>) -> Seq<char> {
    trim_end(trim_start(s))
}

/// Whether `p` occurs in `t` at `i`.
pub open spec fn occurs_at(t: Seq<char>, p: Seq<char>, i: int) -> bool {
    0 <= i && i + p.len() <= t.len() && t.subrange(i, i + p.len()) == p
}

/// Whether `p` occurs in `t`.
pub open spec fn contains_seq(t: Seq<char>, p: Seq<char>) -> bool {
    exists|i: int| occurs_at(t, p, i)
}

/// `t` with each occurrence of the non-empty `p`, found from left to right
/// without overlap, replaced by `r` (what `str::replace` gives).
pub open spec fn replace_all(t: Seq<char>, p: Seq<char>, r: Seq<char>) -> Seq<char>
    decreases t.len(),
{
    if p.len() == 0 || t.len() < p.len() {
        t
    } else if t.take(p.len() as int) == p {
        r + replace_all(t.skip(p.len() as int), p, r)
    } else {
        seq![t[0]] + replace_all(t.skip(1), p, r)
    }
}

proof fn lemma_trim_start_skip(s: Seq<char>, i: int)
    requires
        0 <= i <= s.len(),
        forall|k: int| 0 <= k < i ==> white_space(#[trigger] s[k]),
    ensures
        trim_start(s) == trim_start(s.skip(i)),
    decreases i,
{
    if i > 0 {
        assert(s.skip(1).skip(i - 1) =~= s.skip(i));
        assert forall|k: int| 0 <= k < i - 1 implies white_space(#[trigger] s.skip(1)[k]) by {
            assert(s.skip(1)[k] == s[k + 1]);
        }
        lemma_trim_start_skip(s.skip(1), i - 1);
        assert(s.drop_first() =~= s.skip(1));
    } else {
        assert(s.skip(0) =~= s);
    }
}

proof fn lemma_trim_end_take(s: Seq<char>, j: int)
    requires
        0 <= j <= s.len(),
        forall|k: int| j <= k < s.len() ==> white_space(#[trigger] s[k]),
    ensures
        trim_end(s) == trim_end(s.take(j)),
    decreases s.len() - j,
{
    if j < s.len() {
        assert(s.drop_last().take(j) =~= s.take(j));
        lemma_trim_end_take(s.drop_last(), j);
    } else {
        assert(s.take(j) =~= s);
    }
}

/// `s` without leading and trailing whitespace.
pub fn trim_chars(s: &[char]) -> (r: Vec<char>)
    ensures
        r@ == trim(s@),
{
    let mut a: usize = 0;
    while a < s.len() && char_is_whitespace(s[a])
        invariant
            a <= s@.len(),
            forall|k: int| 0 <= k < a ==> white_space(#[trigger] s@[k]),
        decreases s@.len() - a,
    {
        a = a + 1;
    }
    proof {
        lemma_trim_start_skip(s@, a as int);
    }
    let ghost u = s@.skip(a as int);
    assert(u.len() == 0 || !white_space(u[0]));
    assert(trim_start(u) == u);
    let mut b: usize = s.len();
    while b > a && char_is_whitespace(s[b - 1])
        invariant
            a <= b <= s@.len(),
            forall|k: int| b <= k < s@.len() ==> white_space(#[trigger] s@[k]),
        decreases b,
    {
        b = b - 1;
    }
    proof {
        assert forall|k: int| b - a <= k < u.len() implies white_space(#[trigger] u[k]) by {
            assert(u[k] == s@[k + a]);
        }
        lemma_trim_end_take(u, b - a);
        let v = u.take(b - a);
        assert(v =~= s@.subrange(a as int, b as int));
        assert(v.len() == 0 || !white_space(v.last()));
        assert(trim_end(v) == v);
    }
    copy_range(s, a, b)
}

/// Whether `p` occurs in `t` at `i`.
fn occurs_at_exec(t: &[char], p: &[char], i: usize) -> (b: bool)
    ensures
        b == occurs_at(t@, p@, i as int),
{
    if i > t.len() || p.len() > t.len() - i {
        return false;
    }
    let mut k: usize = 0;
    while k < p.len()
        invariant
            i + p@.len() <= t.len(),
            k <= p@.len(),
            forall|j: int| 0 <= j < k ==> t@[i + j] == p@[j],
        decreases p@.len() - k,
    {
        if t[i + k] != p[k] {
            assert(t@.subrange(i as int, i + p@.len())[k as int] != p@[k as int]);
            return false;
        }
        k = k + 1;
    }
    assert(t@.subrange(i as int, i + p@.len()) =~= p@);
    true
}

/// Whether `p` occurs in `t`.
pub fn contains_chars(t: &[char], p: &[char]) -> (b: bool)
    ensures
        b == contains_seq(t@, p@),
{
    if p.len() > t.len() {
        assert forall|i: int| !occurs_at(t@, p@, i) by {}
        return false;
    }
    let last: usize = t.len() - p.len();
    let mut i: usize = 0;
    while i < last
        invariant
            last == t@.len() - p@.len(),
            i <= last,
            forall|j: int| 0 <= j < i ==> !occurs_at(t@, p@, j),
        decreases last - i,
    {
        if occurs_at_exec(t, p, i) {
            return true;
        }
        i = i + 1;
    }
    if occurs_at_exec(t, p, last) {
        return true;
    }
    assert forall|j: int| !occurs_at(t@, p@, j) by {
        if j > t@.len() - p@.len() {
        } else if j >= 0 {
        }
    }
    false
}

/// `t` with each occurrence of the non-empty `p` replaced by `r`, scanning
/// from left to right without overlap.
pub fn replace_chars(t: &[char], p: &[char], r: &[char]) -> (out: Vec<char>)
    requires
        p@.len() > 0,
    ensures
        out@ == replace_all(t@, p@, r@),
{
    let mut out: Vec<char> = Vec::new();
    let mut i: usize = 0;
    assert(t@.skip(0) =~= t@);
    assert(out@ + replace_all(t@, p@, r@) =~= replace_all(t@, p@, r@));
    while i < t.len()
        invariant
            p@.len() > 0,
            i <= t@.len(),
            out@ + replace_all(t@.skip(i as int), p@, r@) == replace_all(t@, p@, r@),
        decreases t@.len() - i,
    {
        let ghost rest = t@.skip(i as int);
        if occurs_at_exec(t, p, i) {
            assert(rest.take(p@.len() as int) =~= t@.subrange(i as int, i + p@.len()));
            assert(rest.skip(p@.len() as int) =~= t@.skip(i + p@.len()));
            let ghost o0 = out@;
            let mut k: usize = 0;
            while k < r.len()
                invariant
                    k <= r@.len(),
                    out@ == o0 + r@.take(k as int),
                decreases r@.len() - k,
            {
                out.push(r[k]);
                k = k + 1;
                assert(out@ =~= o0 + r@.take(k as int));
            }
            assert(r@.take(r@.len() as int) =~= r@);
            assert(o0 + (r@ + replace_all(rest.skip(p@.len() as int), p@, r@)) =~= out@ + replace_all(
                t@.skip(i + p@.len()),
                p@,
                r@,
            ));
            i = i + p.len();
        } else {
            proof {
                if rest.len() >= p@.len() {
                    assert(rest.take(p@.len() as int) =~= t@.subrange(i as int, i + p@.len()));
                }
                assert(rest.skip(1) =~= t@.skip(i + 1));
                if rest.len() < p@.len() {
                    assert(replace_all(rest, p@, r@) == rest);
                    assert(rest =~= seq![t@[i as int]] + rest.skip(1));
                    assert(rest.skip(1).len() < p@.len());
                    assert(replace_all(rest.skip(1), p@, r@) == rest.skip(1));
                }
            }
            let ghost o0 = out@;
            out.push(t[i]);
            assert(o0 + replace_all(rest, p@, r@) =~= out@ + replace_all(t@.skip(i + 1), p@, r@));
            i = i + 1;
        }
    }
    assert(t@.skip(t@.len() as int) =~= Seq::<char>::empty());
    assert(out@ + Seq::<char>::empty() =~= out@);
    out
}

} // verus!
