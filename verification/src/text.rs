//! Small text utilities shared by the emitters: appending a single character,
//! comparing strings, and substring search.

use vstd::prelude::*;

verus! {

use vstd::string::StrSliceExecFns;

/// Relies on `String::push`: appends exactly the one character.
#[verifier::external_body]
pub fn push_char(s: &mut String, c: char)
    ensures
        final(s)@ == old(s)@.push(c),
{
    s.push(c);
}

pub fn str_eq(a: &str, b: &str) -> (r: bool)
    ensures
        r == (a@ == b@),
{
    let sa = a.to_owned();
    let sb = b.to_owned();
    sa == sb
}

pub proof fn lemma_skip_step<A>(s: Seq<A>, i: int)
    requires
        0 <= i < s.len(),
    ensures
        s.skip(i).drop_first() =~= s.skip(i + 1),
        s.skip(i)[0] == s[i],
        s.skip(i).len() == s.len() - i,
{
}

/// `p` occurs as a contiguous run of characters somewhere in `t`.
pub open spec fn sp_contains(t: Seq<char>, p: Seq<char>) -> bool {
    exists|k: int| 0 <= k <= t.len() - p.len() && #[trigger] t.subrange(k, k + p.len()) =~= p
}

fn match_at(t: &str, p: &str, k: usize) -> (r: bool)
    requires
        k + p@.len() <= t@.len(),
    ensures
        r == (t@.subrange(k as int, k as int + p@.len()) =~= p@),
{
    let tl = t.unicode_len();
    let pl = p.unicode_len();
    let mut j: usize = 0;
    while j < pl
        invariant
            j <= pl,
            pl == p@.len(),
            tl == t@.len(),
            k + pl <= tl,
            forall|m: int| 0 <= m < j ==> t@[k + m] == p@[m],
        decreases pl - j,
    {
        if t.get_char(k + j) != p.get_char(j) {
            proof {
                assert(t@.subrange(k as int, k as int + p@.len())[j as int] != p@[j as int]);
            }
            return false;
        }
        j = j + 1;
    }
    proof {
        assert(t@.subrange(k as int, k as int + p@.len()) =~= p@);
    }
    true
}

pub fn contains(t: &str, p: &str) -> (r: bool)
    ensures
        r == sp_contains(t@, p@),
{
    let tl = t.unicode_len();
    let pl = p.unicode_len();
    if pl > tl {
        return false;
    }
    let mut k: usize = 0;
    while k <= tl - pl
        invariant
            pl <= tl,
            tl == t@.len(),
            pl == p@.len(),
            k <= tl - pl + 1,
            forall|m: int|
                0 <= m < k ==> !(#[trigger] t@.subrange(m, m + p@.len()) =~= p@),
        decreases tl + 1 - k,
    {
        if match_at(t, p, k) {
            return true;
        }
        k = k + 1;
    }
    false
}

} // verus!
