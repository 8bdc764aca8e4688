//! The hasher the runtime's hash sets and maps use: WyHash with a fixed seed, so that no
//! secret has to be generated.
use vstd::prelude::*;
use std::hash::BuildHasher;
use wyrand::WyHash;

verus! {

#[verifier::external_type_specification]
#[verifier::external_body]
pub struct ExWyHash(WyHash);

/// The seed every hasher starts from.
pub const WYHASH_SEED: u64 = 0xfc1abcacd1fc58fe;

/// `WyHash::new_with_default_secret` of a seed.
pub uninterp spec fn wyhash_with_default_secret(seed: u64) -> WyHash;

#[verifier::external_body]
fn new_with_default_secret(seed: u64) -> (r: WyHash)
    ensures
        r == wyhash_with_default_secret(seed),
{
    WyHash::new_with_default_secret(seed)
}

/// Builds WyHash hashers with the default secret and a fixed seed.
#[derive(Copy, Clone, Debug, Default)]
pub struct WyHashBuilder;

impl WyHashBuilder {
    /// A new hasher: always the same starting state.
    pub fn new_hasher(&self) -> (r: WyHash)
        ensures
            r == wyhash_with_default_secret(WYHASH_SEED),
    {
        new_with_default_secret(WYHASH_SEED)
    }
}

impl BuildHasher for WyHashBuilder {
    type Hasher = WyHash;

    /// The hasher `new_hasher` gives: the default secret and the fixed seed.
    fn build_hasher(&self) -> (r: WyHash)
        ensures
            r == wyhash_with_default_secret(WYHASH_SEED),
    {
        self.new_hasher()
    }
}

} // verus!
