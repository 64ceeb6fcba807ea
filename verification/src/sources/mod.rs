//! Transaction sources and the routing of what they produce.

pub mod csv_source;

use std::collections::hash_map::DefaultHasher;
use std::hash::{Hash, Hasher};
use vstd::prelude::*;
use vstd::std_specs::hash::DefaultHasherAdditionalSpecFns;

verus! {

/// The channel that a key with this hash is sent to, out of `parallelism` channels; a single
/// channel stands in where there are none.
pub open spec fn channel_for_hash(hash: u64, parallelism: usize) -> usize {
    if parallelism <= 1 {
        0
    } else {
        (hash as usize) % parallelism
    }
}

/// The writes that hashing `key` makes to a hasher.
pub uninterp spec fn key_writes(key: u16) -> Seq<Seq<u8>>;

/// The channel that `key` is sent to, out of `parallelism` channels.
pub open spec fn channel_of(key: u16, parallelism: usize) -> usize {
    channel_for_hash(DefaultHasher::spec_finish(key_writes(key)), parallelism)
}

/// `hash` of `u16`: it writes to the hasher, and what it writes depends on the key alone. Which
/// bytes those are is left open: std leaves it open too, for it differs between platforms and
/// between releases.
#[verifier::external_body]
fn hash_key(key: u16, hasher: &mut DefaultHasher)
    ensures
        final(hasher)@ == old(hasher)@ + key_writes(key),
{
    key.hash(hasher)
}

/// The channel index for a key whose hash is known.
pub fn route_hash(hash: u64, parallelism: usize) -> (r: usize)
    ensures
        r == channel_for_hash(hash, parallelism),
        r < parallelism || r == 0,
{
    if parallelism <= 1 {
        return 0;
    }
    (hash as usize) % parallelism
}

/// Consistent-hash router: maps a `u16` key to a channel index in `[0, parallelism)`. The result
/// depends on `key` and `parallelism`, and on nothing else. A parallelism of zero is taken for
/// one.
pub fn route(key: u16, parallelism: usize) -> (r: usize)
    ensures
        r == channel_of(key, parallelism),
        r < parallelism || r == 0,
{
    let mut hasher = DefaultHasher::new();
    hash_key(key, &mut hasher);
    assert(hasher@ =~= key_writes(key));
    route_hash(hasher.finish(), parallelism)
}

} // verus!
