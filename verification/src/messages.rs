use crate::data_types::{PHash, Share, Slice};
use vstd::prelude::*;

verus! {

/// Sent by a client to turn the extension on.
#[derive(Clone, Copy, Debug, PartialEq, Eq)]
pub struct Activate {
    pub request_id: u32,
}

/// The server's answer to `Activate`.
#[derive(Clone, Copy, Debug, PartialEq, Eq)]
pub struct ActivateSuccess {
    pub request_id: u32,
}

/// The one general error of the extension; its text (a `STR0_255`) is for logging only.
#[derive(Clone, Debug, PartialEq, Eq)]
pub struct ErrorMessage {
    pub message: Vec<u8>,
}

/// Extension negotiation request.
#[derive(Clone, Debug, PartialEq, Eq)]
pub struct RequestExtensions {
    pub request_id: u16,
    pub requested_extensions: Vec<u16>,
}

/// Successful answer to extension negotiation.
#[derive(Clone, Debug, PartialEq, Eq)]
pub struct RequestExtensionsSuccess {
    pub request_id: u16,
    pub supported_extensions: Vec<u16>,
}

/// Error answer to extension negotiation.
#[derive(Clone, Debug, PartialEq, Eq)]
pub struct RequestExtensionsError {
    pub request_id: u16,
    pub requested_extensions: Vec<u16>,
    pub unsupported_extensions: Vec<u16>,
}

/// Asks for shares of the window, by their ids relative to the window.
#[derive(Clone, Debug, PartialEq, Eq)]
pub struct GetShares {
    pub shares: Vec<u64>,
}

/// The shares asked for with `GetShares`.
#[derive(Clone, Debug, PartialEq, Eq)]
pub struct GetSharesSuccess {
    pub shares: Vec<Share>,
}

/// Asks for the window of the block with the given hash.
#[derive(Clone, Copy, Debug, PartialEq, Eq)]
pub struct GetWindow {
    pub block_hash: [u8; 32],
}

/// The slices of a window and its partial hashes.
#[derive(Clone, Debug, PartialEq, Eq)]
pub struct GetWindowSuccess {
    pub slices: Vec<Slice>,
    pub phashes: Vec<PHash>,
}

/// The pool is busy: the client must not ask again before `retry_in_seconds`.
#[derive(Clone, Copy, Debug, PartialEq, Eq)]
pub struct GetWindowBusy {
    pub retry_in_seconds: u64,
}

/// Sent by the pool when one of its miners found a block.
#[derive(Clone, Copy, Debug, PartialEq, Eq)]
pub struct NewBlockFound {
    pub block_hash: [u8; 32],
}

/// Transactions that raise the maximum extractable fees; each is a `B0_16M`.
#[derive(Clone, Debug, PartialEq, Eq)]
pub struct NewTxs {
    pub transactions: Vec<Vec<u8>>,
}

/// Sent by the pool for each share it accepted.
#[derive(Clone, Copy, Debug, PartialEq, Eq)]
pub struct ShareOk {
    pub job_id: u64,
    pub share_index: u32,
}

/// Asks for the transactions of a job.
#[derive(Clone, Copy, Debug, PartialEq, Eq)]
pub struct GetTransationsInJob {
    pub request_id: u32,
    pub job_id: u64,
}

/// The short ids of the transactions of a job; each short id is 6 bytes.
#[derive(Clone, Debug, PartialEq, Eq)]
pub struct GetTransationsInJobSuccess {
    pub window_req_id: u32,
    pub request_id: u32,
    pub coinbase_id: [u8; 32],
    pub tx_short_hash_nonce: u64,
    pub tx_short_hash_list: Vec<[u8; 6]>,
    pub tx_hash_list_hash: [u8; 32],
}

/// Asks for the full list of transaction hashes of a job.
#[derive(Clone, Copy, Debug, PartialEq, Eq)]
pub struct IdentifyTransations {
    pub request_id: u32,
}

/// The transaction data hashes of a job.
#[derive(Clone, Debug, PartialEq, Eq)]
pub struct IdentifyTransationsSuccess {
    pub request_id: u32,
    pub tx_data_hashes: Vec<[u8; 32]>,
}

/// Asks for the transactions at the given positions.
#[derive(Clone, Debug, PartialEq, Eq)]
pub struct ProvideMissinTransactions {
    pub request_id: u32,
    pub unknown_tx_position_list: Vec<u16>,
}

/// The transactions asked for, in the order asked; each is a `B0_16M`.
#[derive(Clone, Debug, PartialEq, Eq)]
pub struct ProvideMissinTransactionsSuccess {
    pub request_id: u32,
    pub transaction_list: Vec<Vec<u8>>,
}

/// Encoded size of a sequence of `B0_16M` byte strings: each is a 3-byte length and its
/// bytes.
pub open spec fn spec_b016m_seq_size(v: Seq<Vec<u8>>) -> nat
    decreases v.len(),
{
    if v.len() == 0 {
        0
    } else {
        spec_b016m_seq_size(v.drop_last()) + 3 + v.last()@.len()
    }
}

/// Encoded size of a sequence of shares.
pub open spec fn spec_share_seq_size(v: Seq<Share>) -> nat
    decreases v.len(),
{
    if v.len() == 0 {
        0
    } else {
        spec_share_seq_size(v.drop_last()) + 35 + v.last().extranonce@.len()
            + v.last().merkle_path@.len()
    }
}

fn b016m_seq_size(v: &Vec<Vec<u8>>) -> (n: usize)
    requires
        2 + spec_b016m_seq_size(v@) <= usize::MAX,
    ensures
        n == 2 + spec_b016m_seq_size(v@),
{
    let mut size: usize = 2;
    let len = v.len();
    for i in 0..len
        invariant
            len == v@.len(),
            2 + spec_b016m_seq_size(v@) <= usize::MAX,
            size == 2 + spec_b016m_seq_size(v@.take(i as int)),
    {
        assert(v@.take(i + 1).drop_last() =~= v@.take(i as int));
        proof {
            lemma_b016m_seq_size_prefix(v@, i + 1);
        }
        size = size + (v[i].len() + 3);
    }
    assert(v@.take(len as int) =~= v@);
    size
}

proof fn lemma_b016m_seq_size_prefix(v: Seq<Vec<u8>>, k: int)
    requires
        0 <= k <= v.len(),
    ensures
        spec_b016m_seq_size(v.take(k)) <= spec_b016m_seq_size(v),
    decreases v.len() - k,
{
    if k < v.len() {
        lemma_b016m_seq_size_prefix(v, k + 1);
        assert(v.take(k + 1).drop_last() =~= v.take(k));
    } else {
        assert(v.take(k) =~= v);
    }
}

proof fn lemma_share_seq_size_prefix(v: Seq<Share>, k: int)
    requires
        0 <= k <= v.len(),
    ensures
        spec_share_seq_size(v.take(k)) <= spec_share_seq_size(v),
    decreases v.len() - k,
{
    if k < v.len() {
        lemma_share_seq_size_prefix(v, k + 1);
        assert(v.take(k + 1).drop_last() =~= v.take(k));
    } else {
        assert(v.take(k) =~= v);
    }
}

impl Activate {
    /// Encoded size: a `u32`.
    pub fn get_size(&self) -> (n: usize)
        ensures
            n == 4,
    {
        4
    }
}

impl ActivateSuccess {
    /// Encoded size: a `u32`.
    pub fn get_size(&self) -> (n: usize)
        ensures
            n == 4,
    {
        4
    }
}

impl ErrorMessage {
    /// Encoded size: a one-byte length and the text.
    pub fn get_size(&self) -> (n: usize)
        requires
            self.message@.len() <= 255,
        ensures
            n == 1 + self.message@.len(),
    {
        self.message.len() + 1
    }
}

impl RequestExtensions {
    /// Encoded size: a `u16`, then a two-byte count and two bytes per extension.
    pub fn get_size(&self) -> (n: usize)
        requires
            self.requested_extensions@.len() <= 65535,
        ensures
            n == 2 + 2 + 2 * self.requested_extensions@.len(),
    {
        2 + (2 + 2 * self.requested_extensions.len())
    }
}

impl RequestExtensionsSuccess {
    /// Encoded size: a `u16`, then a two-byte count and two bytes per extension.
    pub fn get_size(&self) -> (n: usize)
        requires
            self.supported_extensions@.len() <= 65535,
        ensures
            n == 2 + 2 + 2 * self.supported_extensions@.len(),
    {
        2 + (2 + 2 * self.supported_extensions.len())
    }
}

impl RequestExtensionsError {
    /// Encoded size: a `u16`, then two sequences of `u16`, each after a two-byte count.
    pub fn get_size(&self) -> (n: usize)
        requires
            self.requested_extensions@.len() <= 65535,
            self.unsupported_extensions@.len() <= 65535,
        ensures
            n == 2 + (2 + 2 * self.requested_extensions@.len()) + (2 + 2
                * self.unsupported_extensions@.len()),
    {
        2 + (2 + 2 * self.requested_extensions.len()) + (2 + 2 * self.unsupported_extensions.len())
    }
}

impl GetShares {
    /// Encoded size: a two-byte count and eight bytes per share id.
    pub fn get_size(&self) -> (n: usize)
        requires
            self.shares@.len() <= 65535,
        ensures
            n == 2 + 8 * self.shares@.len(),
    {
        2 + 8 * self.shares.len()
    }
}

impl GetSharesSuccess {
    /// Encoded size: a two-byte count and the encoded size of every share.
    pub fn get_size(&self) -> (n: usize)
        requires
            forall|i: int| 0 <= i < self.shares@.len() ==> #[trigger] self.shares@[i].wf(),
            2 + spec_share_seq_size(self.shares@) <= usize::MAX,
        ensures
            n == 2 + spec_share_seq_size(self.shares@),
    {
        let mut size: usize = 2;
        let len = self.shares.len();
        for i in 0..len
            invariant
                len == self.shares@.len(),
                forall|k: int| 0 <= k < self.shares@.len() ==> #[trigger] self.shares@[k].wf(),
                2 + spec_share_seq_size(self.shares@) <= usize::MAX,
                size == 2 + spec_share_seq_size(self.shares@.take(i as int)),
        {
            assert(self.shares@.take(i + 1).drop_last() =~= self.shares@.take(i as int));
            proof {
                lemma_share_seq_size_prefix(self.shares@, i + 1);
            }
            size = size + self.shares[i].get_size();
        }
        assert(self.shares@.take(len as int) =~= self.shares@);
        size
    }

    /// The same message, owning its data (every message here owns its data already).
    pub fn into_static(self) -> (m: GetSharesSuccess)
        ensures
            m == self,
    {
        self
    }

    /// A copy of the message that owns its data.
    pub fn as_static(&self) -> (m: GetSharesSuccess)
        ensures
            m.shares@.len() == self.shares@.len(),
            forall|i: int| 0 <= i < m.shares@.len() ==> #[trigger] m.shares@[i].same_as(&self.shares@[i]),
    {
        let mut shares: Vec<Share> = Vec::new();
        let len = self.shares.len();
        for i in 0..len
            invariant
                len == self.shares@.len(),
                shares@.len() == i,
                forall|k: int| 0 <= k < i ==> #[trigger] shares@[k].same_as(&self.shares@[k]),
        {
            let s = &self.shares[i];
            shares.push(
                Share {
                    nonce: s.nonce,
                    ntime: s.ntime,
                    version: s.version,
                    extranonce: copy_bytes(&s.extranonce),
                    job_id: s.job_id,
                    reference_job_id: s.reference_job_id,
                    share_index: s.share_index,
                    merkle_path: copy_bytes(&s.merkle_path),
                },
            );
        }
        GetSharesSuccess { shares }
    }
}

/// A copy of a byte vector.
pub(crate) fn copy_bytes(v: &Vec<u8>) -> (out: Vec<u8>)
    ensures
        out@ == v@,
{
    let mut out: Vec<u8> = Vec::new();
    let len = v.len();
    for i in 0..len
        invariant
            len == v@.len(),
            out@ == v@.take(i as int),
    {
        out.push(v[i]);
        assert(v@.take(i + 1) =~= v@.take(i as int).push(v@[i as int]));
    }
    assert(v@.take(len as int) =~= v@);
    out
}

impl GetWindow {
    /// Encoded size: a `U256`.
    pub fn get_size(&self) -> (n: usize)
        ensures
            n == 32,
    {
        32
    }
}

impl GetWindowSuccess {
    /// Encoded size: two sequences, each after a two-byte count; a slice takes 60 bytes and
    /// a partial hash 36.
    pub fn get_size(&self) -> (n: usize)
        requires
            self.slices@.len() <= 65535,
            self.phashes@.len() <= 65535,
        ensures
            n == (2 + 60 * self.slices@.len()) + (2 + 36 * self.phashes@.len()),
    {
        let mut size: usize = 0;
        size = size + (2 + 60 * self.slices.len());
        size = size + (2 + 36 * self.phashes.len());
        size
    }
}

impl GetWindowBusy {
    /// Encoded size: a `u64`.
    pub fn get_size(&self) -> (n: usize)
        ensures
            n == 8,
    {
        8
    }
}

impl NewBlockFound {
    /// Encoded size: a `U256`.
    pub fn get_size(&self) -> (n: usize)
        ensures
            n == 32,
    {
        32
    }
}

impl NewTxs {
    /// Encoded size: a two-byte count, then every transaction after its three-byte length.
    pub fn get_size(&self) -> (n: usize)
        requires
            2 + spec_b016m_seq_size(self.transactions@) <= usize::MAX,
        ensures
            n == 2 + spec_b016m_seq_size(self.transactions@),
    {
        b016m_seq_size(&self.transactions)
    }
}

impl ShareOk {
    /// Encoded size: a `u64` and a `u32`.
    pub fn get_size(&self) -> (n: usize)
        ensures
            n == 12,
    {
        12
    }
}

impl GetTransationsInJob {
    /// Encoded size: a `u32` and a `u64`.
    pub fn get_size(&self) -> (n: usize)
        ensures
            n == 12,
    {
        12
    }
}

impl GetTransationsInJobSuccess {
    /// Encoded size: two `u32`, a `U256`, a `u64`, the short ids (six bytes each) after a
    /// two-byte count, and a `U256`.
    pub fn get_size(&self) -> (n: usize)
        requires
            self.tx_short_hash_list@.len() <= 65535,
        ensures
            n == 4 + 4 + 32 + 8 + (2 + 6 * self.tx_short_hash_list@.len()) + 32,
    {
        4 + 4 + 32 + 8 + (2 + 6 * self.tx_short_hash_list.len()) + 32
    }
}

impl IdentifyTransations {
    /// Encoded size: a `u32`.
    pub fn get_size(&self) -> (n: usize)
        ensures
            n == 4,
    {
        4
    }
}

impl IdentifyTransationsSuccess {
    /// Encoded size: a `u32`, then the hashes (32 bytes each) after a two-byte count.
    pub fn get_size(&self) -> (n: usize)
        requires
            self.tx_data_hashes@.len() <= 65535,
        ensures
            n == 4 + (2 + 32 * self.tx_data_hashes@.len()),
    {
        4 + (2 + 32 * self.tx_data_hashes.len())
    }
}

impl ProvideMissinTransactions {
    /// Encoded size: a `u32`, then the positions (two bytes each) after a two-byte count.
    pub fn get_size(&self) -> (n: usize)
        requires
            self.unknown_tx_position_list@.len() <= 65535,
        ensures
            n == 4 + (2 + 2 * self.unknown_tx_position_list@.len()),
    {
        4 + (2 + 2 * self.unknown_tx_position_list.len())
    }
}

impl ProvideMissinTransactionsSuccess {
    /// Encoded size: a `u32`, a two-byte count, then every transaction after its three-byte
    /// length.
    pub fn get_size(&self) -> (n: usize)
        requires
            4 + 2 + spec_b016m_seq_size(self.transaction_list@) <= usize::MAX,
        ensures
            n == 4 + 2 + spec_b016m_seq_size(self.transaction_list@),
    {
        4 + b016m_seq_size(&self.transaction_list)
    }
}

} // verus!
