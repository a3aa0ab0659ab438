use vstd::prelude::*;
use vstd::string::*;

verus! {

/// The characters of a string slice, in order.
pub fn to_chars(s: &str) -> (v: Vec<char>)
    ensures
        v@ == s@,
{
    let n: usize = s.unicode_len();
    let mut v: Vec<char> = Vec::new();
    let mut k: usize = 0;
    while k < n
        invariant
            k <= n,
            n == s@.len(),
            v@ == s@.subrange(0, k as int),
        decreases n - k,
    {
        let c: char = s.get_char(k);
        v.push(c);
        assert(v@ =~= s@.subrange(0, k + 1));
        k = k + 1;
    }
    assert(v@ =~= s@);
    v
}

/// Whether a string slice spells exactly the given characters.
pub fn spells(s: &str, v: &Vec<char>) -> (same: bool)
    ensures
        same == (s@ == v@),
{
    let n: usize = s.unicode_len();
    if n != v.len() {
        return false;
    }
    let mut k: usize = 0;
    while k < n
        invariant
            k <= n,
            n == s@.len(),
            n == v@.len(),
            s@.subrange(0, k as int) == v@.subrange(0, k as int),
        decreases n - k,
    {
        if s.get_char(k) != v[k] {
            assert(s@[k as int] != v@[k as int]);
            return false;
        }
        assert(s@.subrange(0, k + 1) =~= s@.subrange(0, k as int).push(s@[k as int]));
        assert(v@.subrange(0, k + 1) =~= v@.subrange(0, k as int).push(v@[k as int]));
        k = k + 1;
    }
    assert(s@ =~= s@.subrange(0, n as int));
    assert(v@ =~= v@.subrange(0, n as int));
    true
}

/// The characters of `a` followed by those of `b`.
pub fn concat_chars(a: &Vec<char>, b: &Vec<char>) -> (r: Vec<char>)
    ensures
        r@ == a@ + b@,
{
    let mut r: Vec<char> = Vec::new();
    let mut k: usize = 0;
    while k < a.len()
        invariant
            k <= a@.len(),
            r@ == a@.subrange(0, k as int),
        decreases a@.len() - k,
    {
        r.push(a[k]);
        assert(r@ =~= a@.subrange(0, k + 1));
        k = k + 1;
    }
    let mut j: usize = 0;
    while j < b.len()
        invariant
            j <= b@.len(),
            r@ == a@ + b@.subrange(0, j as int),
        decreases b@.len() - j,
    {
        r.push(b[j]);
        assert(r@ =~= a@ + b@.subrange(0, j + 1));
        j = j + 1;
    }
    assert(r@ =~= a@ + b@);
    r
}

} // verus!
