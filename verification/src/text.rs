//! Plain string rules: looking for a piece of text inside another, and the
//! type that an echoed event carries.

use vstd::prelude::*;

verus! {

/// `pat` occurs in `s` as a run of consecutive characters.
pub open spec fn has_infix(s: Seq<char>, pat: Seq<char>) -> bool {
    exists|i: int| 0 <= i && i + pat.len() <= s.len() && #[trigger] s.subrange(i, i + pat.len()) == pat
}

/// Whether `pat` occurs in `s` (what `str::contains` answers for a string
/// pattern).
pub fn contains_str(s: &str, pat: &str) -> (r: bool)
    ensures
        r == has_infix(s@, pat@),
{
    let n: usize = s.unicode_len();
    let m: usize = pat.unicode_len();
    if m > n {
        assert(!has_infix(s@, pat@));
        return false;
    }
    let mut i: usize = 0;
    while i <= n - m
        invariant
            n == s@.len(),
            m == pat@.len(),
            m <= n,
            i <= n - m + 1,
            forall|j: int| 0 <= j < i ==> #[trigger] s@.subrange(j, j + m) != pat@,
        decreases n - i,
    {
        let mut k: usize = 0;
        let mut same = true;
        while k < m
            invariant
                n == s@.len(),
                m == pat@.len(),
                i + m <= n,
                k <= m,
                same <==> forall|t: int| 0 <= t < k ==> s@[i + t] == pat@[t],
            decreases m - k,
        {
            if s.get_char(i + k) != pat.get_char(k) {
                same = false;
            }
            k = k + 1;
        }
        if same {
            assert(s@.subrange(i as int, i + m) =~= pat@);
            return true;
        }
        let ghost t = choose|t: int| 0 <= t < m && s@[i + t] != pat@[t];
        assert(s@.subrange(i as int, i + m)[t] != pat@[t]);
        i = i + 1;
    }
    assert forall|j: int| 0 <= j && j + pat@.len() <= s@.len() implies #[trigger] s@.subrange(j, j + pat@.len()) != pat@ by {
        assert(j < i);
    }
    false
}

/// The type of the event that answers an event of type `ty`.
pub open spec fn echoed(ty: Seq<char>) -> Seq<char> {
    ty + ".echoed"@
}

/// The type of the event that answers an event of type `ty`: `ty` with
/// `.echoed` appended.
pub fn echoed_type(ty: &str) -> (r: String)
    ensures
        r@ == echoed(ty@),
{
    let mut r = String::from_str(ty);
    r.append(".echoed");
    r
}

} // verus!
