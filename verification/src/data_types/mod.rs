use vstd::bytes::*;
use vstd::prelude::*;

pub mod phash;
pub mod share;
pub mod slice;

pub use phash::PHash;
pub use share::Share;
pub use slice::Slice;

verus! {

/// `s` with the bytes `b` written over it from position `off` on.
pub open spec fn splice(s: Seq<u8>, off: int, b: Seq<u8>) -> Seq<u8> {
    s.subrange(0, off) + b + s.subrange(off + b.len(), s.len() as int)
}

/// Overwrites `dst[offset..offset + src.len()]` with `src`.
pub(crate) fn write_bytes(dst: &mut [u8], offset: usize, src: &[u8])
    requires
        offset + src@.len() <= old(dst)@.len(),
    ensures
        final(dst)@ == splice(old(dst)@, offset as int, src@),
{
    let n = src.len();
    let dlen = dst.len();
    let ghost orig = dst@;
    for i in 0..n
        invariant
            n == src@.len(),
            dlen == orig.len(),
            offset + n <= orig.len(),
            dst@.len() == orig.len(),
            forall|j: int|
                0 <= j < orig.len() ==> #[trigger] dst@[j] == (if offset <= j < offset + i {
                    src@[j - offset]
                } else {
                    orig[j]
                }),
    {
        dst[offset + i] = src[i];
    }
    assert(dst@ =~= splice(orig, offset as int, src@));
}

/// Appends the bytes of `src` to `out`.
pub(crate) fn push_bytes(out: &mut Vec<u8>, src: &[u8])
    ensures
        final(out)@ == old(out)@ + src@,
{
    out.extend_from_slice(src);
    assert(out@ =~= old(out)@ + src@);
}

/// Reads the little-endian `u64` that starts at `offset`.
pub(crate) fn read_u64_le(data: &[u8], offset: usize) -> (v: u64)
    requires
        offset + 8 <= data@.len(),
    ensures
        v == spec_u64_from_le_bytes(data@.subrange(offset as int, offset + 8)),
{
    let len = data.len();
    assert(offset + 8 <= len);
    u64_from_le_bytes(&data[offset..offset + 8])
}

/// Reads the little-endian `u32` that starts at `offset`.
pub(crate) fn read_u32_le(data: &[u8], offset: usize) -> (v: u32)
    requires
        offset + 4 <= data@.len(),
    ensures
        v == spec_u32_from_le_bytes(data@.subrange(offset as int, offset + 4)),
{
    let len = data.len();
    assert(offset + 4 <= len);
    u32_from_le_bytes(&data[offset..offset + 4])
}

/// A 256-bit hash held as four little-endian 64-bit words.
#[derive(Clone, Copy, Debug, PartialEq, Eq)]
pub struct Hash256 {
    pub first: u64,
    pub second: u64,
    pub third: u64,
    pub forth: u64,
}

impl View for Hash256 {
    type V = Seq<u8>;

    /// The 32 bytes of the hash: each word in little-endian order, `first` first.
    open spec fn view(&self) -> Seq<u8> {
        spec_u64_to_le_bytes(self.first) + spec_u64_to_le_bytes(self.second)
            + spec_u64_to_le_bytes(self.third) + spec_u64_to_le_bytes(self.forth)
    }
}

impl Hash256 {
    /// The hash whose 32 bytes are `data`.
    pub open spec fn spec_from_bytes(data: Seq<u8>) -> Hash256 {
        Hash256 {
            first: spec_u64_from_le_bytes(data.subrange(0, 8)),
            second: spec_u64_from_le_bytes(data.subrange(8, 16)),
            third: spec_u64_from_le_bytes(data.subrange(16, 24)),
            forth: spec_u64_from_le_bytes(data.subrange(24, 32)),
        }
    }

    /// Reads a hash from the 32 bytes that start at `offset`.
    pub(crate) fn read_at(data: &[u8], offset: usize) -> (h: Hash256)
        requires
            offset + 32 <= data@.len(),
        ensures
            h == Hash256::spec_from_bytes(data@.subrange(offset as int, offset + 32)),
    {
        let len = data.len();
        assert(offset + 32 <= len);
        let ghost s = data@.subrange(offset as int, offset + 32);
        assert(s.subrange(0, 8) =~= data@.subrange(offset as int, offset + 8));
        assert(s.subrange(8, 16) =~= data@.subrange(offset + 8, offset + 16));
        assert(s.subrange(16, 24) =~= data@.subrange(offset + 16, offset + 24));
        assert(s.subrange(24, 32) =~= data@.subrange(offset + 24, offset + 32));
        Hash256 {
            first: read_u64_le(data, offset),
            second: read_u64_le(data, offset + 8),
            third: read_u64_le(data, offset + 16),
            forth: read_u64_le(data, offset + 24),
        }
    }

    /// The 32 bytes of the hash.
    pub fn to_bytes(&self) -> (b: [u8; 32])
        ensures
            b@ == self@,
    {
        let a = u64_to_le_bytes(self.first);
        let b = u64_to_le_bytes(self.second);
        let c = u64_to_le_bytes(self.third);
        let d = u64_to_le_bytes(self.forth);
        let out = [
            a[0], a[1], a[2], a[3], a[4], a[5], a[6], a[7],
            b[0], b[1], b[2], b[3], b[4], b[5], b[6], b[7],
            c[0], c[1], c[2], c[3], c[4], c[5], c[6], c[7],
            d[0], d[1], d[2], d[3], d[4], d[5], d[6], d[7],
        ];
        assert(out@ =~= a@ + b@ + c@ + d@);
        out
    }
}

impl From<[u8; 32]> for Hash256 {
    fn from(data: [u8; 32]) -> (h: Hash256) {
        let s = data.as_slice();
        assert(s@.subrange(0, 32) =~= data@);
        Hash256::read_at(s, 0)
    }
}

impl vstd::std_specs::convert::FromSpecImpl<[u8; 32]> for Hash256 {
    open spec fn obeys_from_spec() -> bool {
        true
    }

    open spec fn from_spec(data: [u8; 32]) -> Hash256 {
        Hash256::spec_from_bytes(data@)
    }
}

impl From<Hash256> for [u8; 32] {
    fn from(data: Hash256) -> (b: [u8; 32]) {
        data.to_bytes()
    }
}

impl vstd::std_specs::convert::FromSpecImpl<Hash256> for [u8; 32] {
    open spec fn obeys_from_spec() -> bool {
        true
    }

    open spec fn from_spec(data: Hash256) -> [u8; 32] {
        choose|b: [u8; 32]| b@ == data@
    }
}

/// Reading a hash back from its 32 bytes gives the same hash; the bytes of the hash read
/// from 32 bytes are those bytes.
pub proof fn lemma_hash256_bytes_roundtrip(h: Hash256, b: Seq<u8>)
    requires
        b.len() == 32,
    ensures
        Hash256::spec_from_bytes(h@) == h,
        Hash256::spec_from_bytes(b)@ == b,
{
    lemma_auto_spec_u64_to_from_le_bytes();
    assert(h@.subrange(0, 8) =~= spec_u64_to_le_bytes(h.first));
    assert(h@.subrange(8, 16) =~= spec_u64_to_le_bytes(h.second));
    assert(h@.subrange(16, 24) =~= spec_u64_to_le_bytes(h.third));
    assert(h@.subrange(24, 32) =~= spec_u64_to_le_bytes(h.forth));
    assert(b.subrange(0, 8).len() == 8);
    assert(b.subrange(8, 16).len() == 8);
    assert(b.subrange(16, 24).len() == 8);
    assert(b.subrange(24, 32).len() == 8);
    assert(Hash256::spec_from_bytes(b)@ =~= b.subrange(0, 8) + b.subrange(8, 16) + b.subrange(
        16,
        24,
    ) + b.subrange(24, 32));
    assert(b =~= b.subrange(0, 8) + b.subrange(8, 16) + b.subrange(16, 24) + b.subrange(24, 32));
}

} // verus!
