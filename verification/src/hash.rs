use vstd::prelude::*;

verus! {

/// A hash for a value: handy for anything that should look random but stay
/// the same for the same value, such as which variant of a tile to show at a
/// position.
///
/// Feeds the value to a hasher made by `ahash::AHasher::default` and returns
/// what the hasher's `finish` gives. The keys of that hasher are drawn once
/// per run of a program, so the hash of a value differs from run to run, and
/// nothing is claimed of it here.
#[verifier::external_body]
pub fn hashcode<H: core::hash::Hash>(hashee: &H) -> u64 {
    let mut hasher = ahash::AHasher::default();
    hashee.hash(&mut hasher);
    core::hash::Hasher::finish(&hasher)
}

} // verus!
