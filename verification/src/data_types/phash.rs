use super::{push_bytes, read_u32_le, Hash256};
use vstd::bytes::*;
use vstd::prelude::*;

verus! {

/// A partial hash of the window, with the index of the first slice that it covers.
#[derive(Clone, Copy, Debug, PartialEq, Eq)]
pub struct PHash {
    pub phash: Hash256,
    pub index_start: u32,
}

impl PHash {
    /// The 36 bytes of a partial hash on the wire: the hash, then the index little-endian.
    pub open spec fn spec_bytes(&self) -> Seq<u8> {
        self.phash@ + spec_u32_to_le_bytes(self.index_start)
    }

    /// The partial hash that the first 36 bytes of `data` describe.
    pub open spec fn spec_from_bytes(data: Seq<u8>) -> PHash {
        PHash {
            phash: Hash256::spec_from_bytes(data.subrange(0, 32)),
            index_start: spec_u32_from_le_bytes(data.subrange(32, 36)),
        }
    }

    /// The wire bytes of a sequence of partial hashes, one after the other.
    pub open spec fn spec_seq_bytes(v: Seq<PHash>) -> Seq<u8>
        decreases v.len(),
    {
        if v.len() == 0 {
            Seq::empty()
        } else {
            PHash::spec_seq_bytes(v.drop_last()) + v.last().spec_bytes()
        }
    }

    /// The wire bytes of the partial hash.
    pub(crate) fn wire_bytes(&self) -> (out: Vec<u8>)
        ensures
            out@ == self.spec_bytes(),
    {
        let h = self.phash.to_bytes();
        let mut out: Vec<u8> = Vec::new();
        push_bytes(&mut out, h.as_slice());
        push_bytes(&mut out, u32_to_le_bytes(self.index_start).as_slice());
        out
    }

    /// Decodes a partial hash from the first 36 bytes of `data`.
    pub fn from_bytes_unchecked(data: &[u8]) -> (p: PHash)
        requires
            data@.len() >= 36,
        ensures
            p == PHash::spec_from_bytes(data@),
    {
        PHash { phash: Hash256::read_at(data, 0), index_start: read_u32_le(data, 32) }
    }

    /// The bytes of a `Seq064K<PHash>` field: the element count as a little-endian `u16`
    /// (the count taken modulo 2^16), then every partial hash's wire bytes.
    pub fn seq_into_encodable_field(v: Vec<PHash>) -> (out: Vec<u8>)
        requires
            v@.len() % 65536 <= 65533,
        ensures
            out@ == spec_u16_to_le_bytes((v@.len() % 65536) as u16) + PHash::spec_seq_bytes(
                v@,
            ),
    {
        let n = v.len();
        let inner_len = (n % 65536) as u16;
        let capacity = inner_len + 2;
        let mut out: Vec<u8> = Vec::with_capacity(capacity as usize);
        push_bytes(&mut out, u16_to_le_bytes(inner_len).as_slice());
        let ghost header = out@;
        for i in 0..n
            invariant
                n == v@.len(),
                header == spec_u16_to_le_bytes((v@.len() % 65536) as u16),
                out@ == header + PHash::spec_seq_bytes(v@.take(i as int)),
        {
            let elem = v[i].wire_bytes();
            push_bytes(&mut out, elem.as_slice());
            assert(v@.take(i + 1).drop_last() =~= v@.take(i as int));
        }
        assert(v@.take(n as int) =~= v@);
        out
    }
}

/// Decoding the wire bytes of a partial hash, whatever follows them, gives it back.
pub proof fn lemma_phash_bytes_roundtrip(p: PHash, rest: Seq<u8>)
    ensures
        PHash::spec_from_bytes(p.spec_bytes() + rest) == p,
{
    lemma_auto_spec_u32_to_from_le_bytes();
    lemma_auto_spec_u64_to_from_le_bytes();
    let e = p.spec_bytes() + rest;
    assert(e.subrange(0, 32) =~= p.phash@);
    assert(e.subrange(32, 36) =~= spec_u32_to_le_bytes(p.index_start));
    super::lemma_hash256_bytes_roundtrip(p.phash, p.phash@);
}

proof fn lemma_phash_seq_bytes_len(v: Seq<PHash>)
    ensures
        PHash::spec_seq_bytes(v).len() == 36 * v.len(),
    decreases v.len(),
{
    lemma_auto_spec_u64_to_from_le_bytes();
    lemma_auto_spec_u32_to_from_le_bytes();
    if v.len() > 0 {
        lemma_phash_seq_bytes_len(v.drop_last());
    }
}

/// The partial hashes encoded one after the other take 36 bytes each, and the `k`-th
/// group of 36 bytes is the `k`-th partial hash's encoding.
pub proof fn lemma_phash_seq_bytes_index(v: Seq<PHash>, k: int)
    requires
        0 <= k < v.len(),
    ensures
        PHash::spec_seq_bytes(v).len() == 36 * v.len(),
        PHash::spec_seq_bytes(v).subrange(36 * k, 36 * k + 36) == v[k].spec_bytes(),
    decreases v.len(),
{
    lemma_auto_spec_u64_to_from_le_bytes();
    lemma_auto_spec_u32_to_from_le_bytes();
    lemma_phash_seq_bytes_len(v.drop_last());
    let prefix = PHash::spec_seq_bytes(v.drop_last());
    let last = v.last().spec_bytes();
    assert(last.len() == 36);
    if k < v.len() - 1 {
        lemma_phash_seq_bytes_index(v.drop_last(), k);
        assert(36 * k + 36 <= 36 * (v.len() - 1)) by (nonlinear_arith)
            requires
                k < v.len() - 1,
        ;
        assert((prefix + last).subrange(36 * k, 36 * k + 36) =~= prefix.subrange(36 * k, 36 * k + 36));
    } else {
        assert((prefix + last).subrange(36 * k, 36 * k + 36) =~= last);
    }
}

/// Decoding the `k`-th group of 36 bytes after the count of a partial hash sequence field
/// gives back the `k`-th partial hash.
pub proof fn lemma_phash_field_read_back(v: Seq<PHash>, k: int)
    requires
        0 <= k < v.len(),
    ensures
        ({
            let field = spec_u16_to_le_bytes((v.len() % 65536) as u16) + PHash::spec_seq_bytes(v);
            PHash::spec_from_bytes(field.subrange(2 + 36 * k, 2 + 36 * k + 36)) == v[k]
        }),
{
    lemma_auto_spec_u16_to_from_le_bytes();
    lemma_phash_seq_bytes_index(v, k);
    let header = spec_u16_to_le_bytes((v.len() % 65536) as u16);
    let body = PHash::spec_seq_bytes(v);
    assert((header + body).subrange(2 + 36 * k, 2 + 36 * k + 36) =~= body.subrange(
        36 * k,
        36 * k + 36,
    ));
    lemma_phash_bytes_roundtrip(v[k], Seq::empty());
    assert(v[k].spec_bytes() + Seq::<u8>::empty() =~= v[k].spec_bytes());
}

} // verus!
