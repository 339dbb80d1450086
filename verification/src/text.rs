//! Substring search over character sequences, for the name-keyword
//! queries.

use vstd::prelude::*;
use vstd::string::StrSliceExecFns;

verus! {

/// `needle` occurs contiguously inside `hay`.
pub open spec fn contains_chars(hay: Seq<char>, needle: Seq<char>) -> bool {
    exists|o: int|
        0 <= o && o + needle.len() <= hay.len() && #[trigger] hay.subrange(o, o + needle.len())
            == needle
}

/// Whether `needle` occurs contiguously inside `hay`, by characters.
#[verifier::loop_isolation(false)]
pub fn str_contains_chars(hay: &str, needle: &str) -> (r: bool)
    ensures
        r == contains_chars(hay@, needle@),
{
    let n = hay.unicode_len();
    let m = needle.unicode_len();
    if m > n {
        return false;
    }
    if m == 0 {
        proof {
            assert(hay@.subrange(0, 0 + needle@.len() as int) =~= needle@);
        }
        return true;
    }
    for o in 0..(n - m + 1)
        invariant
            forall|o2: int|
                0 <= o2 < o ==> #[trigger] hay@.subrange(o2, o2 + needle@.len() as int)
                    != needle@,
    {
        let mut matched = true;
        for j in 0..m
            invariant
                o + m <= n,
                matched <==> (forall|j2: int|
                    0 <= j2 < j ==> hay@[o as int + j2] == #[trigger] needle@[j2]),
        {
            let hc = hay.get_char(o + j);
            let nc = needle.get_char(j);
            if hc != nc {
                proof {
                    assert(hay@[o as int + j as int] != needle@[j as int]);
                }
                matched = false;
            }
        }
        if matched {
            proof {
                assert(hay@.subrange(o as int, o as int + needle@.len() as int) =~= needle@);
            }
            return true;
        }
        proof {
            let oi = o as int;
            let mi = needle@.len() as int;
            if hay@.subrange(oi, oi + mi) == needle@ {
                assert forall|j2: int| 0 <= j2 < mi implies hay@[oi + j2] == needle@[j2] by {
                    assert(hay@.subrange(oi, oi + mi)[j2] == hay@[oi + j2]);
                }
                assert(false);
            }
        }
    }
    false
}

} // verus!
