use super::{push_bytes, read_u32_le, read_u64_le, splice, write_bytes};
use vstd::bytes::*;
use vstd::prelude::*;

verus! {

/// A share sent by a miner, with its position in its slice and its merkle path there.
#[derive(Clone, Debug, PartialEq, Eq)]
pub struct Share {
    pub nonce: u32,
    pub ntime: u32,
    pub version: u32,
    /// At most 32 bytes (a `B032` on the wire).
    pub extranonce: Vec<u8>,
    pub job_id: u64,
    pub reference_job_id: u64,
    pub share_index: u32,
    /// At most 65535 bytes (a `B064K` on the wire).
    pub merkle_path: Vec<u8>,
}

impl Share {
    /// The bounds that the wire types put on the two byte fields.
    pub open spec fn wf(&self) -> bool {
        &&& self.extranonce@.len() <= 32
        &&& self.merkle_path@.len() <= 65535
    }

    /// Every field of the two shares holds the same value.
    pub open spec fn same_as(&self, other: &Share) -> bool {
        &&& self.nonce == other.nonce
        &&& self.ntime == other.ntime
        &&& self.version == other.version
        &&& self.extranonce@ == other.extranonce@
        &&& self.job_id == other.job_id
        &&& self.reference_job_id == other.reference_job_id
        &&& self.share_index == other.share_index
        &&& self.merkle_path@ == other.merkle_path@
    }

    /// The bytes of a share on the wire: the integers little-endian, the extranonce after
    /// a one-byte length, the merkle path after a two-byte little-endian length.
    pub open spec fn spec_bytes(&self) -> Seq<u8> {
        spec_u32_to_le_bytes(self.nonce) + spec_u32_to_le_bytes(self.ntime)
            + spec_u32_to_le_bytes(self.version) + seq![self.extranonce@.len() as u8]
            + self.extranonce@ + spec_u64_to_le_bytes(self.job_id) + spec_u64_to_le_bytes(
            self.reference_job_id,
        ) + spec_u32_to_le_bytes(self.share_index) + spec_u16_to_le_bytes(
            self.merkle_path@.len() as u16,
        ) + self.merkle_path@
    }

    /// Where the fields after the extranonce start in the bytes `data` of a share: after
    /// the three integers, the extranonce's length byte and the extranonce.
    pub open spec fn spec_tail_offset(data: Seq<u8>) -> int {
        13 + data[12] as int
    }

    /// Whether the bytes `data` hold a whole share: the three integers, the extranonce's
    /// length byte and that many bytes, the two ids and the index, and the merkle path's
    /// two length bytes and that many bytes.
    pub open spec fn bytes_hold_share(data: Seq<u8>) -> bool {
        &&& data.len() >= 13
        &&& data.len() >= Share::spec_tail_offset(data) + 22
        &&& data.len() >= Share::spec_tail_offset(data) + 22 + spec_u16_from_le_bytes(
            data.subrange(Share::spec_tail_offset(data) + 20, Share::spec_tail_offset(data) + 22),
        )
    }

    /// Whether every field of the share is what the wire bytes `data` give for it.
    pub open spec fn is_decoded_from(&self, data: Seq<u8>) -> bool {
        let p = Share::spec_tail_offset(data);
        let m = spec_u16_from_le_bytes(data.subrange(p + 20, p + 22)) as int;
        &&& self.nonce == spec_u32_from_le_bytes(data.subrange(0, 4))
        &&& self.ntime == spec_u32_from_le_bytes(data.subrange(4, 8))
        &&& self.version == spec_u32_from_le_bytes(data.subrange(8, 12))
        &&& self.extranonce@ == data.subrange(13, p)
        &&& self.job_id == spec_u64_from_le_bytes(data.subrange(p, p + 8))
        &&& self.reference_job_id == spec_u64_from_le_bytes(data.subrange(p + 8, p + 16))
        &&& self.share_index == spec_u32_from_le_bytes(data.subrange(p + 16, p + 20))
        &&& self.merkle_path@ == data.subrange(p + 22, p + 22 + m)
    }

    /// The share that the wire bytes `data` describe (the inverse of `spec_bytes`).
    pub open spec fn spec_from_bytes(data: Seq<u8>) -> Share {
        choose|s: Share| s.is_decoded_from(data)
    }

    /// The wire bytes of a sequence of shares, one after the other.
    pub open spec fn spec_seq_bytes(v: Seq<Share>) -> Seq<u8>
        decreases v.len(),
    {
        if v.len() == 0 {
            Seq::empty()
        } else {
            Share::spec_seq_bytes(v.drop_last()) + v.last().spec_bytes()
        }
    }

    /// The encoded size of the share.
    pub fn get_size(&self) -> (n: usize)
        requires
            self.wf(),
        ensures
            n == 35 + self.extranonce@.len() + self.merkle_path@.len(),
            n == self.spec_bytes().len(),
    {
        proof {
            lemma_auto_spec_u64_to_from_le_bytes();
            lemma_auto_spec_u32_to_from_le_bytes();
            lemma_auto_spec_u16_to_from_le_bytes();
        }
        4 + 4 + 4 + (self.extranonce.len() + 1) + 8 + 8 + 4 + (self.merkle_path.len() + 2)
    }

    /// The wire bytes of the share.
    pub(crate) fn wire_bytes(&self) -> (out: Vec<u8>)
        requires
            self.wf(),
        ensures
            out@ == self.spec_bytes(),
    {
        let e_len = self.extranonce.len();
        let m_len = self.merkle_path.len();
        let mut out = u32_to_le_bytes(self.nonce);
        push_bytes(&mut out, u32_to_le_bytes(self.ntime).as_slice());
        push_bytes(&mut out, u32_to_le_bytes(self.version).as_slice());
        out.push(e_len as u8);
        push_bytes(&mut out, self.extranonce.as_slice());
        push_bytes(&mut out, u64_to_le_bytes(self.job_id).as_slice());
        push_bytes(&mut out, u64_to_le_bytes(self.reference_job_id).as_slice());
        push_bytes(&mut out, u32_to_le_bytes(self.share_index).as_slice());
        push_bytes(&mut out, u16_to_le_bytes(m_len as u16).as_slice());
        push_bytes(&mut out, self.merkle_path.as_slice());
        assert(out@ =~= self.spec_bytes());
        out
    }

    /// Whether the bytes `data` hold a whole share at their start.
    pub fn holds_share(data: &[u8]) -> (b: bool)
        ensures
            b == Share::bytes_hold_share(data@),
    {
        let n = data.len();
        if n < 13 {
            return false;
        }
        let p = 13 + data[12] as usize;
        if n < p + 22 {
            return false;
        }
        let m_len = u16_from_le_bytes(vstd::slice::slice_subrange(data, p + 20, p + 22)) as usize;
        n >= p + 22 + m_len
    }

    /// Decodes a share from its wire bytes at the start of `data`.
    pub fn from_bytes_unchecked(data: &[u8]) -> (s: Share)
        requires
            Share::bytes_hold_share(data@),
        ensures
            s.is_decoded_from(data@),
            s.same_as(&Share::spec_from_bytes(data@)),
    {
        let nonce = read_u32_le(data, 0);
        let ntime = read_u32_le(data, 4);
        let version = read_u32_le(data, 8);
        let e_len = data[12] as usize;
        let p = 13 + e_len;
        let extranonce = vstd::slice::slice_to_vec(vstd::slice::slice_subrange(data, 13, p));
        let job_id = read_u64_le(data, p);
        let reference_job_id = read_u64_le(data, p + 8);
        let share_index = read_u32_le(data, p + 16);
        let m_len = u16_from_le_bytes(vstd::slice::slice_subrange(data, p + 20, p + 22)) as usize;
        let merkle_path = vstd::slice::slice_to_vec(
            vstd::slice::slice_subrange(data, p + 22, p + 22 + m_len),
        );
        let s = Share {
            nonce,
            ntime,
            version,
            extranonce,
            job_id,
            reference_job_id,
            share_index,
            merkle_path,
        };
        assert(s.is_decoded_from(data@));
        s
    }

    /// Writes the share's wire bytes at the start of a 60-byte buffer. They fit only when
    /// the extranonce and the merkle path hold at most 25 bytes together.
    pub fn to_slice_unchecked(&self, dst: &mut [u8])
        requires
            old(dst)@.len() == 60,
            self.extranonce@.len() + self.merkle_path@.len() <= 25,
        ensures
            final(dst)@ == splice(old(dst)@, 0, self.spec_bytes()),
    {
        proof {
            lemma_auto_spec_u64_to_from_le_bytes();
            lemma_auto_spec_u32_to_from_le_bytes();
            lemma_auto_spec_u16_to_from_le_bytes();
        }
        let bytes = self.wire_bytes();
        write_bytes(dst, 0, bytes.as_slice());
    }

    /// The bytes of a `Seq064K<Share>` field: the element count as a little-endian `u16`
    /// (the count taken modulo 2^16), then every share's wire bytes.
    pub fn seq_into_encodable_field(v: Vec<Share>) -> (out: Vec<u8>)
        requires
            v@.len() % 65536 <= 65533,
            forall|i: int| 0 <= i < v@.len() ==> #[trigger] v@[i].wf(),
        ensures
            out@ == spec_u16_to_le_bytes((v@.len() % 65536) as u16) + Share::spec_seq_bytes(
                v@,
            ),
    {
        let n = v.len();
        let inner_len = (n % 65536) as u16;
        let capacity = inner_len + 2;
        let mut out: Vec<u8> = Vec::with_capacity(capacity as usize);
        push_bytes(&mut out, u16_to_le_bytes(inner_len).as_slice());
        let ghost header = out@;
        for i in 0..n
            invariant
                n == v@.len(),
                forall|k: int| 0 <= k < v@.len() ==> #[trigger] v@[k].wf(),
                header == spec_u16_to_le_bytes((v@.len() % 65536) as u16),
                out@ == header + Share::spec_seq_bytes(v@.take(i as int)),
        {
            let elem = v[i].wire_bytes();
            push_bytes(&mut out, elem.as_slice());
            assert(v@.take(i + 1).drop_last() =~= v@.take(i as int));
        }
        assert(v@.take(n as int) =~= v@);
        out
    }
}

/// Decoding the wire bytes of a well-formed share, whatever follows them, gives the share
/// back, field by field.
pub proof fn lemma_share_bytes_roundtrip(s: Share, rest: Seq<u8>)
    requires
        s.wf(),
    ensures
        Share::bytes_hold_share(s.spec_bytes() + rest),
        Share::spec_from_bytes(s.spec_bytes() + rest).same_as(&s),
{
    lemma_auto_spec_u64_to_from_le_bytes();
    lemma_auto_spec_u32_to_from_le_bytes();
    lemma_auto_spec_u16_to_from_le_bytes();
    let d = s.spec_bytes() + rest;
    let e: int = s.extranonce@.len() as int;
    let m: int = s.merkle_path@.len() as int;
    let p: int = 13 + e;
    assert(d[12] == e as u8);
    assert(Share::spec_tail_offset(d) == p);
    assert(d.subrange(0, 4) =~= spec_u32_to_le_bytes(s.nonce));
    assert(d.subrange(4, 8) =~= spec_u32_to_le_bytes(s.ntime));
    assert(d.subrange(8, 12) =~= spec_u32_to_le_bytes(s.version));
    assert(d.subrange(13, p) =~= s.extranonce@);
    assert(d.subrange(p, p + 8) =~= spec_u64_to_le_bytes(s.job_id));
    assert(d.subrange(p + 8, p + 16) =~= spec_u64_to_le_bytes(s.reference_job_id));
    assert(d.subrange(p + 16, p + 20) =~= spec_u32_to_le_bytes(s.share_index));
    assert(d.subrange(p + 20, p + 22) =~= spec_u16_to_le_bytes(m as u16));
    assert(d.subrange(p + 22, p + 22 + m) =~= s.merkle_path@);
    assert(s.is_decoded_from(d));
}

} // verus!
