//! Image-locator normalization.
//!
//! Storage keeps the full remote image path; presentation needs only the
//! bare file name. A locator of the remote shape (at least four `/`
//! separators) is cut down to its basename, the text after the last
//! `/`; anything else is passed through unchanged rather than failing.

use vstd::prelude::*;
use vstd::string::StrSliceExecFns;

verus! {

/// How many `/` separators the locator holds.
pub open spec fn slash_count(s: Seq<char>) -> nat
    decreases s.len(),
{
    if s.len() == 0 {
        0
    } else {
        slash_count(s.drop_last()) + if s.last() == '/' {
            1nat
        } else {
            0nat
        }
    }
}

/// The position of the last `/` of the locator, or `-1` when it has
/// none.
pub open spec fn last_slash(s: Seq<char>) -> int
    decreases s.len(),
{
    if s.len() == 0 {
        -1
    } else if s.last() == '/' {
        s.len() - 1
    } else {
        last_slash(s.drop_last())
    }
}

/// The basename of the locator: what follows its last `/`.
pub open spec fn img_name_of(s: Seq<char>) -> Seq<char> {
    s.subrange(last_slash(s) + 1, s.len() as int)
}

/// The locator as exposed: the basename when the locator has the full
/// remote shape, the locator unchanged otherwise.
pub open spec fn normalized_img_of(s: Seq<char>) -> Seq<char> {
    if slash_count(s) >= 4 {
        img_name_of(s)
    } else {
        s
    }
}

/// [`last_slash`] really is the last `/`: it is a `/`, nothing after it
/// is one, and it is `-1` exactly when the locator has no `/` at all.
pub proof fn lemma_last_slash(s: Seq<char>)
    ensures
        -1 <= last_slash(s) < s.len(),
        last_slash(s) >= 0 ==> s[last_slash(s)] == '/',
        forall|j: int| last_slash(s) < j < s.len() ==> s[j] != '/',
        (last_slash(s) == -1) <==> (slash_count(s) == 0),
    decreases s.len(),
{
    if s.len() > 0 {
        lemma_last_slash(s.drop_last());
        if s.last() != '/' {
            assert forall|j: int| last_slash(s) < j < s.len() implies s[j] != '/' by {
                if j < s.len() - 1 {
                    assert(s.drop_last()[j] != '/');
                    assert(s.drop_last()[j] == s[j]);
                } else {
                    assert(s[j] == s.last());
                }
            }
            if last_slash(s) >= 0 {
                assert(s.drop_last()[last_slash(s)] == s[last_slash(s)]);
            }
        }
    }
}

/// Locator normalization, characterized: a locator with any `/` exposes
/// exactly what follows its last `/`, and nothing after that cut is a
/// `/`.
pub proof fn lemma_img_name_is_basename(s: Seq<char>)
    requires
        slash_count(s) >= 1,
    ensures
        0 <= last_slash(s) < s.len(),
        s[last_slash(s)] == '/',
        forall|j: int| last_slash(s) < j < s.len() ==> s[j] != '/',
        img_name_of(s) == s.subrange(last_slash(s) + 1, s.len() as int),
{
    lemma_last_slash(s);
}

/// The file name inside a remote image locator: `Some` of the basename
/// when the locator has at least four `/` separators (the remote shape),
/// `None` otherwise.
pub fn get_img_name_from_url(img_url: &str) -> (r: Option<String>)
    ensures
        r is Some <==> slash_count(img_url@) >= 4,
        r is Some ==> r->0@ == img_name_of(img_url@),
{
    let n = img_url.unicode_len();
    let mut count: usize = 0;
    let mut cut: usize = 0;
    for k in 0..n
        invariant
            n == img_url@.len(),
            count == slash_count(img_url@.take(k as int)),
            count <= k,
            cut == last_slash(img_url@.take(k as int)) + 1,
            cut <= k,
    {
        proof {
            assert(img_url@.take(k as int + 1).drop_last() =~= img_url@.take(k as int));
        }
        let c = img_url.get_char(k);
        if c == '/' {
            count = count + 1;
            cut = k + 1;
        }
    }
    proof {
        assert(img_url@.take(n as int) =~= img_url@);
    }
    if count >= 4 {
        Some(img_url.substring_char(cut, n).to_owned())
    } else {
        None
    }
}

/// The locator as the presentation layer sees it: the basename of a full
/// remote image path, or the locator unchanged when it is not of that
/// shape.
pub fn img_name_or_original(img_url: &String) -> (r: String)
    ensures
        r@ == normalized_img_of(img_url@),
{
    match get_img_name_from_url(img_url.as_str()) {
        Some(name) => name,
        None => img_url.clone(),
    }
}

} // verus!
