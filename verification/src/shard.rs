use std::hash::{DefaultHasher, Hasher};
use vstd::prelude::*;
use vstd::std_specs::hash::DefaultHasherAdditionalSpecFns;

use crate::player::PlayerKey;

verus! {

/// Keys of data split into shards: each key tells which of `totcap` shards holds it.
pub trait ShardDataKey: Ord + Clone {
    /// The shard counts this kind of key can be spread over.
    spec fn supports_shard_count(totcap: usize) -> bool;

    /// The shard, among `totcap`, that holds this key.
    fn get_shard_idx(&self, totcap: usize) -> (idx: usize)
        requires
            Self::supports_shard_count(totcap),
    ;
}

/// The shard of a `u16` key among `totcap`: the keys are cut into ranges of
/// `u16::MAX / totcap` keys each.
pub open spec fn u16_shard(key: u16, totcap: usize) -> int {
    key as int / (0xffffint / totcap as int)
}

/// The shard of a `u64` key among `totcap`: the keys, taken as `usize`, are cut into
/// ranges of `usize::MAX / totcap` keys each.
pub open spec fn u64_shard(key: u64, totcap: usize) -> int {
    (key as usize) as int / (usize::MAX as int / totcap as int)
}

/// The shard of a hashed key among `totcap`, from its hash `h`: the hashes, taken as
/// `usize`, are cut into ranges of `usize::MAX / totcap` values each.
pub open spec fn hash_shard(h: u64, totcap: usize) -> int {
    (h as usize) as int / (usize::MAX as int / totcap as int)
}

/// The hash of some bytes: one write of them into a fresh `DefaultHasher`.
pub open spec fn bytes_hash(bytes: Seq<u8>) -> u64 {
    DefaultHasher::spec_finish(seq![bytes])
}

impl ShardDataKey for u16 {
    open spec fn supports_shard_count(totcap: usize) -> bool {
        0 < totcap <= 0xffff
    }

    fn get_shard_idx(&self, totcap: usize) -> (idx: usize)
        ensures
            idx == u16_shard(*self, totcap),
    {
        let sep = (u16::MAX as usize) / totcap;
        assert(sep >= 1) by (nonlinear_arith)
            requires
                sep == 0xffffusize / totcap,
                0 < totcap <= 0xffff,
        ;
        (*self as usize) / sep
    }
}

impl ShardDataKey for u64 {
    open spec fn supports_shard_count(totcap: usize) -> bool {
        0 < totcap
    }

    fn get_shard_idx(&self, totcap: usize) -> (idx: usize)
        ensures
            idx == u64_shard(*self, totcap),
    {
        // `u64::MAX as usize` is `usize::MAX` on every target.
        let sep = usize::MAX / totcap;
        assert(sep >= 1) by (nonlinear_arith)
            requires
                sep == usize::MAX / totcap,
                0 < totcap <= usize::MAX,
        ;
        (#[verifier::truncate] (*self as usize)) / sep
    }
}

/// The shard of hash `h` among `totcap` (see [`hash_shard`]).
pub fn shard_of_hash(h: u64, totcap: usize) -> (idx: usize)
    requires
        0 < totcap,
    ensures
        idx == hash_shard(h, totcap),
{
    let sep = usize::MAX / totcap;
    assert(sep >= 1) by (nonlinear_arith)
        requires
            sep == usize::MAX / totcap,
            0 < totcap <= usize::MAX,
    ;
    (#[verifier::truncate] (h as usize)) / sep
}

impl ShardDataKey for PlayerKey {
    open spec fn supports_shard_count(totcap: usize) -> bool {
        0 < totcap
    }

    fn get_shard_idx(&self, totcap: usize) -> (idx: usize)
        ensures
            idx == hash_shard(bytes_hash(self@), totcap),
    {
        let mut h = DefaultHasher::new();
        h.write(self.as_slice());
        shard_of_hash(h.finish(), totcap)
    }
}

impl ShardDataKey for String {
    open spec fn supports_shard_count(totcap: usize) -> bool {
        0 < totcap
    }

    fn get_shard_idx(&self, totcap: usize) -> (idx: usize)
        ensures
            idx == hash_shard(bytes_hash(vstd::utf8::encode_utf8(self@)), totcap),
    {
        let mut h = DefaultHasher::new();
        h.write(self.as_str().as_bytes());
        shard_of_hash(h.finish(), totcap)
    }
}


/// Sharding `u16` keys keeps their order: a smaller key never lands in a later shard.
pub proof fn lemma_u16_shard_monotonic(a: u16, b: u16, totcap: usize)
    requires
        0 < totcap <= 0xffff,
        a <= b,
    ensures
        u16_shard(a, totcap) <= u16_shard(b, totcap),
{
    let sep = 0xffffint / totcap as int;
    assert(sep >= 1) by (nonlinear_arith)
        requires
            sep == 0xffffint / totcap as int,
            0 < totcap <= 0xffff,
    ;
    vstd::arithmetic::div_mod::lemma_div_is_ordered(a as int, b as int, sep);
}

/// A `u16` key lands in one of the `totcap` shards exactly when it is below `totcap` times
/// the range size; the keys above (such as `u16::MAX` with two shards) get the index
/// `totcap` or more, which names no shard.
pub proof fn lemma_u16_shard_in_range(key: u16, totcap: usize)
    requires
        0 < totcap <= 0xffff,
    ensures
        u16_shard(key, totcap) < totcap <==> (key as int) < totcap as int * (0xffffint / totcap as int),
{
    let sep = 0xffffint / totcap as int;
    let t = totcap as int;
    let k = key as int;
    assert(sep >= 1) by (nonlinear_arith)
        requires
            sep == 0xffffint / t,
            0 < t <= 0xffff,
    ;
    assert(k / sep < t <==> k < t * sep) by (nonlinear_arith)
        requires
            sep >= 1,
            k >= 0,
            t > 0,
    {
        vstd::arithmetic::div_mod::lemma_fundamental_div_mod(k, sep);
        assert(0 <= k % sep < sep) by {
            vstd::arithmetic::div_mod::lemma_mod_bound(k, sep);
        }
    }
}

/// With two shards, the key `u16::MAX` gets the index 2, which names no shard.
pub proof fn lemma_u16_max_key_out_of_two_shards()
    ensures
        u16_shard(0xffff, 2) == 2,
{
    assert(0xffffint / 2 == 32767);
    assert(0xffffint / 32767 == 2);
}

} // verus!
