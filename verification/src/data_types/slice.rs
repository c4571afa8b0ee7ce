use super::{push_bytes, read_u32_le, read_u64_le, splice, write_bytes, Hash256};
use vstd::bytes::*;
use vstd::prelude::*;

verus! {

/// A group of shares mined while the mempool's maximum extractable fees can be taken as
/// constant.
#[derive(Clone, Copy, Debug, PartialEq, Eq)]
pub struct Slice {
    /// How many shares are in the slice.
    pub number_of_shares: u32,
    /// Sum of the difficulties of the shares that compose the slice.
    pub difficulty: u64,
    /// Fees of the reference job of the slice.
    pub fees: u64,
    /// Merkle root of the tree of all the shares in the slice.
    pub root: Hash256,
    /// Id of the reference job of the slice.
    pub job_id: u64,
}

impl Slice {
    /// The 60 bytes of a slice on the wire: every field little-endian, in declaration order.
    pub open spec fn spec_bytes(&self) -> Seq<u8> {
        spec_u32_to_le_bytes(self.number_of_shares) + spec_u64_to_le_bytes(self.difficulty)
            + spec_u64_to_le_bytes(self.fees) + self.root@ + spec_u64_to_le_bytes(self.job_id)
    }

    /// The slice that 60 bytes on the wire describe.
    pub open spec fn spec_from_bytes(data: Seq<u8>) -> Slice {
        Slice {
            number_of_shares: spec_u32_from_le_bytes(data.subrange(0, 4)),
            difficulty: spec_u64_from_le_bytes(data.subrange(4, 12)),
            fees: spec_u64_from_le_bytes(data.subrange(12, 20)),
            root: Hash256::spec_from_bytes(data.subrange(20, 52)),
            job_id: spec_u64_from_le_bytes(data.subrange(52, 60)),
        }
    }

    /// What `to_slice_unchecked` leaves in the buffer `dst`: the slice's 60 wire bytes
    /// written from offset 0 (count, difficulty, fees, the 32 root bytes at offset 20, and
    /// the job id at offset 52).
    pub open spec fn spec_written(&self, dst: Seq<u8>) -> Seq<u8> {
        splice(dst, 0, self.spec_bytes())
    }

    /// The wire bytes of a sequence of slices, one after the other.
    pub open spec fn spec_seq_bytes(v: Seq<Slice>) -> Seq<u8>
        decreases v.len(),
    {
        if v.len() == 0 {
            Seq::empty()
        } else {
            Slice::spec_seq_bytes(v.drop_last()) + v.last().spec_bytes()
        }
    }

    /// The wire bytes of the slice.
    pub(crate) fn wire_bytes(&self) -> (out: Vec<u8>)
        ensures
            out@ == self.spec_bytes(),
    {
        let mut out = u32_to_le_bytes(self.number_of_shares);
        push_bytes(&mut out, u64_to_le_bytes(self.difficulty).as_slice());
        push_bytes(&mut out, u64_to_le_bytes(self.fees).as_slice());
        push_bytes(&mut out, self.root.to_bytes().as_slice());
        push_bytes(&mut out, u64_to_le_bytes(self.job_id).as_slice());
        out
    }

    /// Decodes a slice from its 60 wire bytes.
    pub fn from_bytes_unchecked(data: &[u8]) -> (s: Slice)
        requires
            data@.len() == 60,
        ensures
            s == Slice::spec_from_bytes(data@),
    {
        Slice {
            number_of_shares: read_u32_le(data, 0),
            difficulty: read_u64_le(data, 4),
            fees: read_u64_le(data, 12),
            root: Hash256::read_at(data, 20),
            job_id: read_u64_le(data, 52),
        }
    }

    /// Writes the slice into a 60-byte buffer, as `spec_written` describes.
    pub fn to_slice_unchecked(&self, dst: &mut [u8])
        requires
            old(dst)@.len() == 60,
        ensures
            final(dst)@ == self.spec_written(old(dst)@),
            final(dst)@ == self.spec_bytes(),
    {
        proof {
            lemma_auto_spec_u64_to_from_le_bytes();
            lemma_auto_spec_u32_to_from_le_bytes();
        }
        let bytes = self.wire_bytes();
        write_bytes(dst, 0, bytes.as_slice());
        assert(dst@ =~= self.spec_bytes());
    }

    /// The bytes of a `Seq064K<Slice>` field: the element count as a little-endian `u16`
    /// (the count taken modulo 2^16), then every slice's wire bytes.
    pub fn seq_into_encodable_field(v: Vec<Slice>) -> (out: Vec<u8>)
        requires
            v@.len() % 65536 <= 65533,
        ensures
            out@ == spec_u16_to_le_bytes((v@.len() % 65536) as u16) + Slice::spec_seq_bytes(
                v@,
            ),
    {
        let n = v.len();
        let inner_len = (n % 65536) as u16;
        let capacity = inner_len + 2;
        let mut out: Vec<u8> = Vec::with_capacity(capacity as usize);
        push_bytes(&mut out, u16_to_le_bytes(inner_len).as_slice());
        let ghost header = out@;
        for i in 0..n
            invariant
                n == v@.len(),
                header == spec_u16_to_le_bytes((v@.len() % 65536) as u16),
                out@ == header + Slice::spec_seq_bytes(v@.take(i as int)),
        {
            let elem = v[i].wire_bytes();
            push_bytes(&mut out, elem.as_slice());
            assert(v@.take(i + 1).drop_last() =~= v@.take(i as int));
        }
        assert(v@.take(n as int) =~= v@);
        out
    }
}

/// Decoding the wire bytes of a slice gives the slice back, and the wire bytes of the slice
/// decoded from 60 bytes are those bytes.
pub proof fn lemma_slice_bytes_roundtrip(s: Slice, b: Seq<u8>)
    requires
        b.len() == 60,
    ensures
        Slice::spec_from_bytes(s.spec_bytes()) == s,
        Slice::spec_from_bytes(b).spec_bytes() == b,
{
    lemma_auto_spec_u64_to_from_le_bytes();
    lemma_auto_spec_u32_to_from_le_bytes();
    let e = s.spec_bytes();
    assert(e.subrange(0, 4) =~= spec_u32_to_le_bytes(s.number_of_shares));
    assert(e.subrange(4, 12) =~= spec_u64_to_le_bytes(s.difficulty));
    assert(e.subrange(12, 20) =~= spec_u64_to_le_bytes(s.fees));
    assert(e.subrange(20, 52) =~= s.root@);
    assert(e.subrange(52, 60) =~= spec_u64_to_le_bytes(s.job_id));
    super::lemma_hash256_bytes_roundtrip(s.root, b.subrange(20, 52));
    assert(b.subrange(0, 4).len() == 4);
    assert(b.subrange(4, 12).len() == 8);
    assert(b.subrange(12, 20).len() == 8);
    assert(b.subrange(52, 60).len() == 8);
    assert(b =~= b.subrange(0, 4) + b.subrange(4, 12) + b.subrange(12, 20) + b.subrange(20, 52)
        + b.subrange(52, 60));
}

/// Reading back what `to_slice_unchecked` left in a 60-byte buffer gives the slice back.
pub proof fn lemma_slice_written_then_read(s: Slice, dst: Seq<u8>)
    requires
        dst.len() == 60,
    ensures
        Slice::spec_from_bytes(s.spec_written(dst)) == s,
{
    lemma_auto_spec_u64_to_from_le_bytes();
    lemma_auto_spec_u32_to_from_le_bytes();
    assert(s.spec_written(dst) =~= s.spec_bytes());
    lemma_slice_bytes_roundtrip(s, dst);
}

/// The slices encoded one after the other take 60 bytes each, and the `k`-th group of 60
/// bytes is the `k`-th slice's encoding.
pub proof fn lemma_slice_seq_bytes_index(v: Seq<Slice>, k: int)
    requires
        0 <= k < v.len(),
    ensures
        Slice::spec_seq_bytes(v).len() == 60 * v.len(),
        Slice::spec_seq_bytes(v).subrange(60 * k, 60 * k + 60) == v[k].spec_bytes(),
    decreases v.len(),
{
    lemma_auto_spec_u64_to_from_le_bytes();
    lemma_auto_spec_u32_to_from_le_bytes();
    lemma_slice_seq_bytes_len(v.drop_last());
    let prefix = Slice::spec_seq_bytes(v.drop_last());
    let last = v.last().spec_bytes();
    assert(last.len() == 60);
    if k < v.len() - 1 {
        lemma_slice_seq_bytes_index(v.drop_last(), k);
        assert(60 * k + 60 <= 60 * (v.len() - 1)) by (nonlinear_arith)
            requires
                k < v.len() - 1,
        ;
        assert((prefix + last).subrange(60 * k, 60 * k + 60) =~= prefix.subrange(60 * k, 60 * k + 60));
    } else {
        assert((prefix + last).subrange(60 * k, 60 * k + 60) =~= last);
    }
}

proof fn lemma_slice_seq_bytes_len(v: Seq<Slice>)
    ensures
        Slice::spec_seq_bytes(v).len() == 60 * v.len(),
    decreases v.len(),
{
    lemma_auto_spec_u64_to_from_le_bytes();
    lemma_auto_spec_u32_to_from_le_bytes();
    if v.len() > 0 {
        lemma_slice_seq_bytes_len(v.drop_last());
    }
}

/// Decoding the `k`-th group of 60 bytes after the count of a slice sequence field gives
/// back the `k`-th slice.
pub proof fn lemma_slice_field_read_back(v: Seq<Slice>, k: int)
    requires
        0 <= k < v.len(),
    ensures
        ({
            let field = spec_u16_to_le_bytes((v.len() % 65536) as u16) + Slice::spec_seq_bytes(v);
            Slice::spec_from_bytes(field.subrange(2 + 60 * k, 2 + 60 * k + 60)) == v[k]
        }),
{
    lemma_auto_spec_u16_to_from_le_bytes();
    lemma_slice_seq_bytes_index(v, k);
    let header = spec_u16_to_le_bytes((v.len() % 65536) as u16);
    let body = Slice::spec_seq_bytes(v);
    assert((header + body).subrange(2 + 60 * k, 2 + 60 * k + 60) =~= body.subrange(
        60 * k,
        60 * k + 60,
    ));
    lemma_slice_bytes_roundtrip(v[k], v[k].spec_bytes());
}

} // verus!
