use vstd::prelude::*;
use rand::Rng;

verus! {

/// `rand::Rng::gen_range` on the thread's generator, over `lo..=hi`. Its
/// documentation promises a value of the range and panics on an empty
/// range; which value comes is chance, and nothing more is claimed.
#[verifier::external_body]
pub(crate) fn random_in(lo: i64, hi: i64) -> (r: i64)
    requires
        lo <= hi,
    ensures
        lo <= r <= hi,
{
    rand::thread_rng().gen_range(lo..=hi)
}

/// `rand::Rng::gen_range` on the thread's generator, over `0..len`: an
/// index below `len`, by chance. An empty range panics.
#[verifier::external_body]
pub(crate) fn random_index(len: usize) -> (i: usize)
    requires
        0 < len,
    ensures
        i < len,
{
    rand::thread_rng().gen_range(0..len)
}

} // verus!
