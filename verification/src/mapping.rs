//! `host:container` pairs, as given for ports and volumes: text with exactly one `:`.
use vstd::prelude::*;

verus! {

/// `k` is the position of the only `c` in `s`.
pub open spec fn sole_at(s: Seq<char>, c: char, k: int) -> bool {
    0 <= k < s.len() && s[k] == c && forall|j: int| 0 <= j < s.len() && j != k ==> s[j] != c
}

/// The two sides of `s` around its only `:`; nothing when `s` has no `:` or more
/// than one (splitting on `:` does not give exactly two parts).
pub open spec fn pair_spec(s: Seq<char>) -> Option<(Seq<char>, Seq<char>)> {
    if exists|k: int| sole_at(s, ':', k) {
        let k = choose|k: int| sole_at(s, ':', k);
        Some((s.take(k), s.skip(k + 1)))
    } else {
        None
    }
}

/// Splits `s` at its only `:`.
pub fn split_pair(s: &str) -> (r: Option<(&str, &str)>)
    ensures
        match r {
            Some((a, b)) => pair_spec(s@) == Some((a@, b@)),
            None => pair_spec(s@) is None,
        },
{
    let n = s.unicode_len();
    let mut found: Option<usize> = None;
    let mut i: usize = 0;
    while i < n
        invariant
            i <= n,
            n == s@.len(),
            match found {
                Some(k) => k < i && s@[k as int] == ':' && forall|j: int|
                    0 <= j < i && j != k ==> s@[j] != ':',
                None => forall|j: int| 0 <= j < i ==> s@[j] != ':',
            },
        decreases n - i,
    {
        if s.get_char(i) == ':' {
            match found {
                Some(k) => {
                    proof {
                        assert forall|m: int| !sole_at(s@, ':', m) by {
                            if sole_at(s@, ':', m) {
                                assert(m == k as int || m == i as int);
                            }
                        }
                    }
                    return None;
                },
                None => {
                    found = Some(i);
                },
            }
        }
        i = i + 1;
    }
    match found {
        None => {
            assert forall|m: int| !sole_at(s@, ':', m) by {
                if sole_at(s@, ':', m) {
                    assert(s@[m] == ':');
                }
            }
            None
        },
        Some(k) => {
            assert(sole_at(s@, ':', k as int));
            proof {
                let c = choose|m: int| sole_at(s@, ':', m);
                assert(c == k as int);
            }
            let a = s.substring_char(0, k);
            let b = s.substring_char(k + 1, n);
            assert(a@ =~= s@.take(k as int));
            assert(b@ =~= s@.skip(k + 1));
            Some((a, b))
        },
    }
}

} // verus!
