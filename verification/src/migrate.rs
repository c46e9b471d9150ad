use vstd::prelude::*;

use crate::types::BlockHash;

verus! {

/// Big-endian byte `i` of a 64-bit value.
pub open spec fn be_byte(h: u64, i: int) -> u8 {
    (h >> (((7 - i) * 8) as u64)) as u8
}

/// The eight big-endian bytes of a 64-bit value, most significant first.
pub open spec fn be_bytes(h: u64) -> Seq<u8> {
    Seq::new(8, |i: int| be_byte(h, i))
}

/// The 32 bytes of a block hash: its four words, each big-endian, in
/// word order.
pub open spec fn hash_bytes(h: BlockHash) -> Seq<u8> {
    be_bytes(h.w0) + be_bytes(h.w1) + be_bytes(h.w2) + be_bytes(h.w3)
}

/// One record of the rebuilt on-disk block index: a key and the value
/// stored under it, both as raw bytes.
pub struct IndexRecord {
    pub key: Vec<u8>,
    pub value: Vec<u8>,
}

/// The big-endian key under which a height is stored.
pub fn height_to_be_bytes(h: u64) -> (r: Vec<u8>)
    ensures
        r@ == be_bytes(h),
{
    let mut out: Vec<u8> = Vec::new();
    out.push((h >> 56u64) as u8);
    out.push((h >> 48u64) as u8);
    out.push((h >> 40u64) as u8);
    out.push((h >> 32u64) as u8);
    out.push((h >> 24u64) as u8);
    out.push((h >> 16u64) as u8);
    out.push((h >> 8u64) as u8);
    out.push((h >> 0u64) as u8);
    proof {
        assert(out@ =~= be_bytes(h));
    }
    out
}

/// A hash flattened to the 32 bytes it is stored as.
pub fn hash_to_bytes(h: &BlockHash) -> (r: Vec<u8>)
    ensures
        r@ == hash_bytes(*h),
{
    let mut out = height_to_be_bytes(h.w0);
    let mut w = height_to_be_bytes(h.w1);
    out.append(&mut w);
    let mut w = height_to_be_bytes(h.w2);
    out.append(&mut w);
    let mut w = height_to_be_bytes(h.w3);
    out.append(&mut w);
    proof {
        assert(out@ =~= hash_bytes(*h));
    }
    out
}

/// The records that rebuild the hash-to-height side of the block index:
/// one per entry, keyed by the hash bytes, holding the height's
/// big-endian bytes.
pub fn plan_by_hash_records(entries: &Vec<(BlockHash, u64)>) -> (r: Vec<IndexRecord>)
    ensures
        r@.len() == entries@.len(),
        forall|i: int|
            0 <= i < entries@.len() ==> (#[trigger] r@[i]).key@ == hash_bytes(entries@[i].0)
                && r@[i].value@ == be_bytes(entries@[i].1),
{
    let mut out: Vec<IndexRecord> = Vec::new();
    let n = entries.len();
    let mut i: usize = 0;
    while i < n
        invariant
            i <= n,
            n == entries@.len(),
            out@.len() == i,
            forall|k: int|
                0 <= k < i ==> (#[trigger] out@[k]).key@ == hash_bytes(entries@[k].0)
                    && out@[k].value@ == be_bytes(entries@[k].1),
        decreases n - i,
    {
        let key = hash_to_bytes(&entries[i].0);
        let value = height_to_be_bytes(entries[i].1);
        out.push(IndexRecord { key, value });
        i = i + 1;
    }
    out
}

/// The records that rebuild the height-to-hash side of the block index:
/// one per entry, keyed by the height's big-endian bytes, holding the
/// hash bytes.
pub fn plan_by_height_records(entries: &Vec<(u64, BlockHash)>) -> (r: Vec<IndexRecord>)
    ensures
        r@.len() == entries@.len(),
        forall|i: int|
            0 <= i < entries@.len() ==> (#[trigger] r@[i]).key@ == be_bytes(entries@[i].0)
                && r@[i].value@ == hash_bytes(entries@[i].1),
{
    let mut out: Vec<IndexRecord> = Vec::new();
    let n = entries.len();
    let mut i: usize = 0;
    while i < n
        invariant
            i <= n,
            n == entries@.len(),
            out@.len() == i,
            forall|k: int|
                0 <= k < i ==> (#[trigger] out@[k]).key@ == be_bytes(entries@[k].0)
                    && out@[k].value@ == hash_bytes(entries@[k].1),
        decreases n - i,
    {
        let key = height_to_be_bytes(entries[i].0);
        let value = hash_to_bytes(&entries[i].1);
        out.push(IndexRecord { key, value });
        i = i + 1;
    }
    out
}

} // verus!
