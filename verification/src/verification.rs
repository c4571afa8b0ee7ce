use crate::data_types::{push_bytes, Share, Slice};
use crate::messages::GetWindowSuccess;
use std::collections::{BTreeMap, BTreeSet};
use crate::sha256::{sha256, spec_sha256};
use crate::uint256::{be_value, fits_u64, u256_as_u64, u256_div, u256_gt, u256_is_zero};
use vstd::bytes::*;
use vstd::prelude::*;

verus! {

/// Errors that can occur during verification.
#[derive(Debug, Clone, Copy, PartialEq, Eq)]
pub enum VerificationError {
    /// Invalid merkle path provided
    InvalidMerklePath,
    /// Share index out of bounds for the slice
    ShareIndexOutOfBounds,
    /// Share difficulty sum exceeds slice difficulty
    DifficultyExceeded,
    /// Share fees exceed slice reference job fees + delta
    FeesExceeded,
    /// Invalid share hash
    InvalidShareHash,
    /// Slice not found in window
    SliceNotFound,
    /// Invalid previous hash
    InvalidPreviousHash,
    /// Mathematical calculation error
    CalculationError,
    /// Invalid job ID
    InvalidJobId,
    /// Invalid transaction data
    InvalidTransactionData,
    /// Insufficient shares in slice
    InsufficientShares,
}

/// Result type for verification operations.
pub type VerificationResult<T> = Result<T, VerificationError>;

/// Detailed result of share verification.
#[derive(Debug, Clone, Copy, PartialEq, Eq)]
pub struct ShareVerificationResult {
    pub share_index: u32,
    pub merkle_valid: bool,
    pub difficulty_valid: bool,
    pub fees_valid: bool,
    pub slice_inclusion_valid: bool,
    pub pow_valid: bool,
}

/// Configuration for verification tolerances.
#[derive(Debug, Clone, Copy)]
pub struct VerificationConfig {
    /// Maximum allowed fee delta above slice reference job fees
    pub fee_delta: u64,
    /// Whether to perform strict difficulty checking
    pub strict_difficulty: bool,
    /// Whether to verify all merkle paths or sample
    pub verify_all_merkle_paths: bool,
    /// Minimum difficulty required for shares
    pub min_share_difficulty: u64,
    /// Maximum allowed time variance for shares
    pub max_time_variance: u32,
    /// Whether to verify proof of work for each share
    pub verify_pow: bool,
}

impl Default for VerificationConfig {
    fn default() -> (c: Self)
        ensures
            c.fee_delta == 100_000,
            c.strict_difficulty,
            !c.verify_all_merkle_paths,
            c.min_share_difficulty == 1,
            c.max_time_variance == 7200,
            c.verify_pow,
    {
        VerificationConfig {
            fee_delta: 100_000,  // 0.001 BTC in satoshis
            strict_difficulty: true,
            verify_all_merkle_paths: false,
            min_share_difficulty: 1,
            max_time_variance: 7200,  // 2 hours
            verify_pow: true,
        }
    }
}

// ---------------------------------------------------------------------------------------
// Hashes of a share
// ---------------------------------------------------------------------------------------

/// The bytes hashed for the share's leaf in its slice's merkle tree: nonce, ntime and
/// version little-endian, the extranonce, and the job id little-endian.
pub open spec fn share_hash_preimage(share: Share) -> Seq<u8> {
    spec_u32_to_le_bytes(share.nonce) + spec_u32_to_le_bytes(share.ntime)
        + spec_u32_to_le_bytes(share.version) + share.extranonce@ + spec_u64_to_le_bytes(
        share.job_id,
    )
}

/// The share's leaf hash.
pub open spec fn spec_share_hash(share: Share) -> Seq<u8> {
    spec_sha256(share_hash_preimage(share))@
}

/// The 80-byte block header hashed for the share's proof of work: the version, a zero
/// previous hash, the share's leaf hash as merkle root, the ntime, the fixed bits
/// `ff ff 00 1d`, and the nonce.
pub open spec fn pow_header(share: Share, share_hash: Seq<u8>) -> Seq<u8> {
    spec_u32_to_le_bytes(share.version) + Seq::new(32, |i: int| 0u8) + share_hash
        + spec_u32_to_le_bytes(share.ntime) + seq![0xFFu8, 0xFFu8, 0x00u8, 0x1Du8]
        + spec_u32_to_le_bytes(share.nonce)
}

/// The share's proof-of-work hash: double SHA-256 of its block header.
pub open spec fn spec_share_pow_hash(share: Share) -> Seq<u8> {
    spec_sha256(spec_sha256(pow_header(share, spec_share_hash(share)))@)@
}

/// Calculates the hash of a share for merkle tree verification.
pub fn calculate_share_hash(share: &Share) -> (r: VerificationResult<[u8; 32]>)
    ensures
        r matches Ok(h) && h@ == spec_share_hash(*share),
{
    let mut data = u32_to_le_bytes(share.nonce);
    push_bytes(&mut data, u32_to_le_bytes(share.ntime).as_slice());
    push_bytes(&mut data, u32_to_le_bytes(share.version).as_slice());
    push_bytes(&mut data, share.extranonce.as_slice());
    push_bytes(&mut data, u64_to_le_bytes(share.job_id).as_slice());
    Ok(sha256(data.as_slice()))
}

/// Calculates the proof-of-work hash for a share (double SHA-256, as in Bitcoin).
pub fn calculate_share_pow_hash(share: &Share) -> (r: VerificationResult<[u8; 32]>)
    ensures
        r matches Ok(h) && h@ == spec_share_pow_hash(*share),
{
    let mut data = u32_to_le_bytes(share.version);
    let zero_hash = [0u8; 32];
    push_bytes(&mut data, zero_hash.as_slice());
    let share_hash = calculate_share_hash(share)?;
    push_bytes(&mut data, share_hash.as_slice());
    push_bytes(&mut data, u32_to_le_bytes(share.ntime).as_slice());
    let bits = [0xFFu8, 0xFFu8, 0x00u8, 0x1Du8];
    push_bytes(&mut data, bits.as_slice());
    push_bytes(&mut data, u32_to_le_bytes(share.nonce).as_slice());
    proof {
        assert(zero_hash@ =~= Seq::new(32, |i: int| 0u8));
        assert(bits@ =~= seq![0xFFu8, 0xFFu8, 0x00u8, 0x1Du8]);
        assert(data@ =~= pow_header(*share, spec_share_hash(*share)));
    }
    let first_hash = sha256(data.as_slice());
    Ok(sha256(first_hash.as_slice()))
}

// ---------------------------------------------------------------------------------------
// Fees of a share
// ---------------------------------------------------------------------------------------

/// The fees credited to a share, from its job id, its ntime and the SHA-256 hash of its
/// extranonce: a base of `1000 * (job_id % 1000 + 1)`, plus `(ntime % 10000) / 100`, plus
/// `(h % 50000) / 10` where `h` is the little-endian value of the hash's first 8 bytes,
/// clamped to `100_000 ..= 10_000_000`.
pub open spec fn spec_fees_from_parts(job_id: u64, ntime: u32, extranonce_hash: Seq<u8>) -> u64 {
    let base_fees = ((job_id % 1000) + 1) * 1000;
    let time_bonus = (ntime % 10000) / 100;
    let h = spec_u64_from_le_bytes(extranonce_hash.subrange(0, 8));
    let complexity_bonus = (h % 50000) / 10;
    let total = base_fees + time_bonus + complexity_bonus;
    if total < 100_000 {
        100_000
    } else if total > 10_000_000 {
        10_000_000
    } else {
        total as u64
    }
}

/// The fees credited to a share.
pub open spec fn spec_share_fees(share: Share) -> u64 {
    spec_fees_from_parts(share.job_id, share.ntime, spec_sha256(share.extranonce@)@)
}

/// The fees credited to a share, given the SHA-256 hash of its extranonce.
pub fn fees_from_parts(job_id: u64, ntime: u32, extranonce_hash: &[u8; 32]) -> (fees: u64)
    ensures
        fees == spec_fees_from_parts(job_id, ntime, extranonce_hash@),
        100_000 <= fees <= 10_000_000,
{
    // Base fee calculation using job characteristics
    let base_fee_multiplier = (job_id % 1000) + 1;  // Avoid zero
    let base_fees = base_fee_multiplier * 1000;  // Base fee in satoshis
    // Time-based bonus
    let time_bonus = (ntime % 10000) / 100;
    // Extranonce-based variation
    let extranonce_hash_value = u64_from_le_bytes(&extranonce_hash[0..8]);
    let complexity_bonus = (extranonce_hash_value % 50000) / 10;
    let total_fees = base_fees + time_bonus as u64 + complexity_bonus;
    // Clamp to the range 0.001 BTC ..= 0.1 BTC
    if total_fees < 100_000 {
        100_000
    } else if total_fees > 10_000_000 {
        10_000_000
    } else {
        total_fees
    }
}

/// Calculates the fees credited to a share.
pub fn calculate_share_fees(share: &Share) -> (r: VerificationResult<u64>)
    ensures
        r == Ok::<u64, VerificationError>(spec_share_fees(*share)),
        100_000 <= spec_share_fees(*share) <= 10_000_000,
{
    let extranonce_hash = sha256(share.extranonce.as_slice());
    Ok(fees_from_parts(share.job_id, share.ntime, &extranonce_hash))
}

// ---------------------------------------------------------------------------------------
// Difficulty of a share
// ---------------------------------------------------------------------------------------

/// The big-endian bytes of Bitcoin's maximum target, `0xffff * 2^208`.
pub open spec fn max_target() -> Seq<u8> {
    Seq::new(32, |i: int| if i == 4 || i == 5 { 0xFFu8 } else { 0u8 })
}

fn bitcoin_max_target() -> (t: [u8; 32])
    ensures
        t@ == max_target(),
{
    let t = [
        0x00u8, 0x00, 0x00, 0x00, 0xFF, 0xFF, 0x00, 0x00, 0x00, 0x00, 0x00, 0x00, 0x00, 0x00,
        0x00, 0x00, 0x00, 0x00, 0x00, 0x00, 0x00, 0x00, 0x00, 0x00, 0x00, 0x00, 0x00, 0x00,
        0x00, 0x00, 0x00, 0x00,
    ];
    assert(t@ =~= max_target());
    t
}

/// Whether the difficulty of a proof-of-work hash is defined: the hash is 0, or above the
/// maximum target, or the quotient of the maximum target by the hash fits in a `u64`.
/// Otherwise the conversion of that quotient to `u64` panics.
pub open spec fn difficulty_defined(hash: Seq<u8>) -> bool {
    let h = be_value(hash);
    let t = be_value(max_target());
    h == 0 || h > t || t / h <= u64::MAX
}

/// The difficulty of a proof-of-work hash, read big-endian: `u64::MAX` for a zero hash, 1
/// above the maximum target, else the maximum target divided by the hash (at least 1).
pub open spec fn spec_difficulty_from_pow_hash(hash: Seq<u8>) -> u64 {
    let h = be_value(hash);
    let t = be_value(max_target());
    if h == 0 {
        u64::MAX
    } else if h > t {
        1
    } else if t / h < 1 {
        1
    } else {
        (t / h) as u64
    }
}

/// The difficulty of a proof-of-work hash.
pub fn difficulty_from_pow_hash(hash: &[u8; 32]) -> (d: u64)
    requires
        difficulty_defined(hash@),
    ensures
        d == spec_difficulty_from_pow_hash(hash@),
        d >= 1,
{
    let max_target = bitcoin_max_target();
    if u256_is_zero(hash) {
        return u64::MAX;
    }
    // Above the maximum target the difficulty is the minimum
    if u256_gt(hash, &max_target) {
        return 1;
    }
    let quotient = u256_div(&max_target, hash);
    let difficulty = u256_as_u64(&quotient);
    if difficulty < 1 {
        1
    } else {
        difficulty
    }
}

/// Whether `difficulty_from_pow_hash` is defined on `hash`.
pub fn pow_hash_difficulty_defined(hash: &[u8; 32]) -> (b: bool)
    ensures
        b == difficulty_defined(hash@),
{
    let max_target = bitcoin_max_target();
    if u256_is_zero(hash) || u256_gt(hash, &max_target) {
        return true;
    }
    let quotient = u256_div(&max_target, hash);
    fits_u64(&quotient)
}

/// Whether the difficulty of the share is defined.
pub open spec fn share_difficulty_defined(share: Share) -> bool {
    difficulty_defined(spec_share_pow_hash(share))
}

/// The difficulty of the share.
pub open spec fn spec_share_difficulty(share: Share) -> u64 {
    spec_difficulty_from_pow_hash(spec_share_pow_hash(share))
}

/// Calculates the difficulty of a share from its proof-of-work hash.
pub fn calculate_share_difficulty(share: &Share) -> (r: VerificationResult<u64>)
    requires
        share_difficulty_defined(*share),
    ensures
        r == Ok::<u64, VerificationError>(spec_share_difficulty(*share)),
        spec_share_difficulty(*share) >= 1,
{
    let share_hash = calculate_share_pow_hash(share)?;
    Ok(difficulty_from_pow_hash(&share_hash))
}

/// Whether the difficulty of the share is defined.
pub fn is_share_difficulty_defined(share: &Share) -> (b: bool)
    ensures
        b == share_difficulty_defined(*share),
{
    match calculate_share_pow_hash(share) {
        Ok(h) => pow_hash_difficulty_defined(&h),
        Err(_) => false,
    }
}

/// The difficulty of the share, or `None` where it is not defined.
pub fn checked_share_difficulty(share: &Share) -> (r: Option<u64>)
    ensures
        r == (if share_difficulty_defined(*share) {
            Some(spec_share_difficulty(*share))
        } else {
            None
        }),
{
    if is_share_difficulty_defined(share) {
        match calculate_share_difficulty(share) {
            Ok(d) => Some(d),
            Err(_) => None,
        }
    } else {
        None
    }
}

// ---------------------------------------------------------------------------------------
// Checks of a single share
// ---------------------------------------------------------------------------------------

/// `a + b`, or `u64::MAX` where the sum does not fit.
pub open spec fn saturating_add(a: u64, b: u64) -> u64 {
    if a + b > u64::MAX {
        u64::MAX
    } else {
        (a + b) as u64
    }
}

/// Whether the share's fees are at most the slice's reference fees plus `fee_delta`.
pub open spec fn spec_verify_share_fees(share: Share, slice: Slice, fee_delta: u64) -> bool {
    spec_share_fees(share) <= saturating_add(slice.fees, fee_delta)
}

/// Verifies that share fees don't exceed slice reference job fees + delta.
pub fn verify_share_fees(share: &Share, slice: &Slice, fee_delta: u64) -> (r: VerificationResult<
    bool,
>)
    ensures
        r == Ok::<bool, VerificationError>(spec_verify_share_fees(*share, *slice, fee_delta)),
{
    let share_fees = calculate_share_fees(share)?;
    let max_allowed_fees = slice.fees.saturating_add(fee_delta);
    Ok(share_fees <= max_allowed_fees)
}

/// Whether the share's difficulty meets the configuration: at least the minimum, at most
/// the slice's difficulty under strict checking, and above 0.
pub open spec fn spec_verify_share_difficulty(
    share: Share,
    slice: Slice,
    config: VerificationConfig,
) -> bool {
    let d = spec_share_difficulty(share);
    if d < config.min_share_difficulty {
        false
    } else if config.strict_difficulty && d > slice.difficulty {
        false
    } else {
        d > 0
    }
}

/// Verifies share difficulty meets requirements.
pub fn verify_share_difficulty(share: &Share, slice: &Slice, config: &VerificationConfig) -> (r:
    VerificationResult<bool>)
    requires
        share_difficulty_defined(*share),
    ensures
        r == Ok::<bool, VerificationError>(spec_verify_share_difficulty(*share, *slice, *config)),
{
    let share_difficulty = calculate_share_difficulty(share)?;
    // Check minimum difficulty
    if share_difficulty < config.min_share_difficulty {
        return Ok(false);
    }
    // Check against slice difficulty
    if config.strict_difficulty && share_difficulty > slice.difficulty {
        return Ok(false);
    }
    Ok(share_difficulty > 0)
}

/// A share's difficulty `d` is accepted exactly when it is at least the configured
/// minimum, positive, and, under strict checking, not above the slice's difficulty (a
/// difficulty equal to the slice's is accepted).
pub proof fn lemma_share_difficulty_bounds(share: Share, slice: Slice, config: VerificationConfig)
    ensures
        spec_verify_share_difficulty(share, slice, config) == ({
            let d = spec_share_difficulty(share);
            &&& d >= config.min_share_difficulty
            &&& (!config.strict_difficulty || d <= slice.difficulty)
            &&& d > 0
        }),
{
}

/// Whether the share's proof of work is accepted: its difficulty is at least the minimum.
pub open spec fn spec_verify_proof_of_work(share: Share, config: VerificationConfig) -> bool {
    spec_share_difficulty(share) >= config.min_share_difficulty
}

/// Verifies proof of work for a share.
pub fn verify_proof_of_work(share: &Share, config: &VerificationConfig) -> (r: VerificationResult<
    bool,
>)
    requires
        share_difficulty_defined(*share),
    ensures
        r == Ok::<bool, VerificationError>(spec_verify_proof_of_work(*share, *config)),
{
    let _pow_hash = calculate_share_pow_hash(share)?;
    let difficulty = calculate_share_difficulty(share)?;
    // Verify the hash meets the difficulty requirement
    if difficulty < config.min_share_difficulty {
        return Ok(false);
    }
    Ok(true)
}

// ---------------------------------------------------------------------------------------
// Merkle paths and trees
// ---------------------------------------------------------------------------------------

/// A hash result seen as bytes.
pub open spec fn hash_result_view(r: VerificationResult<[u8; 32]>) -> VerificationResult<Seq<u8>> {
    match r {
        Ok(h) => Ok(h@),
        Err(e) => Err(e),
    }
}

/// Hashes seen as byte strings.
pub open spec fn hashes_view(v: Seq<[u8; 32]>) -> Seq<Seq<u8>> {
    Seq::new(v.len(), |i: int| v[i]@)
}

/// Whether two 32-byte strings are equal.
fn bytes32_eq(a: &[u8; 32], b: &[u8; 32]) -> (r: bool)
    ensures
        r == (a@ == b@),
{
    let mut i: usize = 0;
    while i < 32
        invariant
            i <= 32,
            forall|j: int| 0 <= j < i ==> a@[j] == b@[j],
        decreases 32 - i,
    {
        if a[i] != b[i] {
            return false;
        }
        i = i + 1;
    }
    assert(a@ =~= b@);
    true
}

/// The depth of a merkle tree over `n` leaves: the least `k` with `2^k >= n` (0 for no
/// leaf).
pub open spec fn spec_ceil_log2(n: nat) -> nat
    decreases n,
{
    if n <= 1 {
        0
    } else {
        1 + spec_ceil_log2(((n + 1) / 2) as nat)
    }
}

/// The depth of a merkle tree over `n` leaves: the least `k` with `2^k >= n`, and 0 for
/// no leaf.
fn ceil_log2(n: u64) -> (k: usize)
    requires
        n <= u32::MAX,
    ensures
        k == spec_ceil_log2(n as nat),
        k <= 32,
    decreases n,
{
    if n <= 1 {
        0
    } else {
        let k = ceil_log2((n + 1) / 2);
        proof {
            vstd::arithmetic::power2::lemma2_to64();
            lemma_ceil_log2_le(((n + 1) / 2) as nat, 0x8000_0000, 31);
            lemma_ceil_log2_le(n as nat, 0x1_0000_0000, 32);
        }
        1 + k
    }
}

/// `n <= 2^k` gives a depth of at most `k`.
proof fn lemma_ceil_log2_le(n: nat, p: nat, k: nat)
    requires
        n <= p,
        p == vstd::arithmetic::power2::pow2(k),
    ensures
        spec_ceil_log2(n) <= k,
    decreases n,
{
    vstd::arithmetic::power2::lemma_pow2_pos(k);
    if n > 1 {
        if k == 0 {
            vstd::arithmetic::power2::lemma2_to64();
        } else {
            vstd::arithmetic::power2::lemma_pow2_unfold(k);
            lemma_ceil_log2_le(((n + 1) / 2) as nat, vstd::arithmetic::power2::pow2(
                (k - 1) as nat,
            ), (k - 1) as nat);
        }
    }
}

/// The root reached from `hash` by the merkle path `path`: each full 32-byte chunk is a
/// sibling, hashed after the current hash when the index is even and before it when it is
/// odd, the index halving at each level; a trailing partial chunk is ignored.
pub open spec fn spec_root_from_path(hash: Seq<u8>, path: Seq<u8>, index: nat) -> Seq<u8>
    decreases path.len(),
{
    if path.len() < 32 {
        hash
    } else {
        let sibling = path.subrange(0, 32);
        let next = if index % 2 == 0 {
            spec_sha256(hash + sibling)@
        } else {
            spec_sha256(sibling + hash)@
        };
        spec_root_from_path(next, path.subrange(32, path.len() as int), index / 2)
    }
}

/// The merkle root from a leaf hash and its path: an error where the path does not hold
/// exactly as many full 32-byte chunks as the tree over `total_shares` leaves has levels.
pub open spec fn spec_compute_merkle_root_from_path(
    share_hash: Seq<u8>,
    merkle_path: Seq<u8>,
    share_index: u32,
    total_shares: u32,
) -> VerificationResult<Seq<u8>> {
    if merkle_path.len() / 32 != spec_ceil_log2(total_shares as nat) {
        Err(VerificationError::InvalidMerklePath)
    } else {
        Ok(spec_root_from_path(share_hash, merkle_path, share_index as nat))
    }
}

/// Computes the merkle root from a share hash and its merkle path.
pub fn compute_merkle_root_from_path(
    share_hash: &[u8; 32],
    merkle_path: &[u8],
    share_index: u32,
    total_shares: u32,
) -> (r: VerificationResult<[u8; 32]>)
    ensures
        hash_result_view(r) == spec_compute_merkle_root_from_path(
            share_hash@,
            merkle_path@,
            share_index,
            total_shares,
        ),
{
    let path_len = merkle_path.len();
    // The path length must match the depth of the tree over the slice's shares
    let expected_depth = ceil_log2(total_shares as u64);
    let actual_depth = path_len / 32;
    if actual_depth != expected_depth {
        return Err(VerificationError::InvalidMerklePath);
    }
    let mut current_hash = *share_hash;
    let mut index = share_index;
    let mut k: usize = 0;
    assert(merkle_path@.subrange(0, path_len as int) =~= merkle_path@);
    while k < actual_depth
        invariant
            path_len == merkle_path@.len(),
            actual_depth == path_len / 32,
            k <= actual_depth,
            spec_root_from_path(share_hash@, merkle_path@, share_index as nat)
                == spec_root_from_path(
                current_hash@,
                merkle_path@.subrange(32 * k, path_len as int),
                index as nat,
            ),
        decreases actual_depth - k,
    {
        let i = 32 * k;
        let sibling_hash = &merkle_path[i..i + 32];
        let mut data: Vec<u8> = Vec::new();
        if index % 2 == 0 {
            push_bytes(&mut data, current_hash.as_slice());
            push_bytes(&mut data, sibling_hash);
        } else {
            push_bytes(&mut data, sibling_hash);
            push_bytes(&mut data, current_hash.as_slice());
        }
        let ghost rest = merkle_path@.subrange(i as int, path_len as int);
        assert(rest.subrange(0, 32) =~= sibling_hash@);
        assert(rest.subrange(32, rest.len() as int) =~= merkle_path@.subrange(
            i + 32,
            path_len as int,
        ));
        current_hash = sha256(data.as_slice());
        index = index / 2;
        k = k + 1;
    }
    assert(merkle_path@.subrange(32 * k, path_len as int).len() < 32);
    Ok(current_hash)
}

/// The result of checking a share's merkle path against its slice's root.
pub open spec fn spec_verify_merkle_path(share: Share, slice: Slice) -> VerificationResult<bool> {
    match spec_compute_merkle_root_from_path(
        spec_share_hash(share),
        share.merkle_path@,
        share.share_index,
        slice.number_of_shares,
    ) {
        Ok(root) => Ok(root == slice.root@),
        Err(e) => Err(e),
    }
}

/// Verifies that a share's merkle path correctly leads to the slice root.
pub fn verify_merkle_path(share: &Share, slice: &Slice) -> (r: VerificationResult<bool>)
    ensures
        r == spec_verify_merkle_path(*share, *slice),
{
    let share_hash = calculate_share_hash(share)?;
    let calculated_root = compute_merkle_root_from_path(
        &share_hash,
        share.merkle_path.as_slice(),
        share.share_index,
        slice.number_of_shares,
    )?;
    let slice_root_bytes = slice.root.to_bytes();
    Ok(bytes32_eq(&calculated_root, &slice_root_bytes))
}

/// One level up a merkle tree: the hash of each pair of nodes, the last node of an odd
/// level paired with itself.
pub open spec fn spec_next_level(level: Seq<Seq<u8>>) -> Seq<Seq<u8>> {
    Seq::new(
        ((level.len() + 1) / 2) as nat,
        |i: int|
            {
                let left = level[2 * i];
                let right = if 2 * i + 1 < level.len() {
                    level[2 * i + 1]
                } else {
                    level[2 * i]
                };
                spec_sha256(left + right)@
            },
    )
}

/// The root of the merkle tree whose leaves are `level`.
pub open spec fn spec_merkle_root(level: Seq<Seq<u8>>) -> Seq<u8>
    decreases level.len(),
{
    if level.len() <= 1 {
        level[0]
    } else {
        spec_merkle_root(spec_next_level(level))
    }
}

/// The sibling of node `i` on a tree level: its right neighbour for an even index (the
/// node itself at the end of an odd level), its left neighbour for an odd index.
pub open spec fn spec_sibling(level: Seq<Seq<u8>>, i: nat) -> Seq<u8> {
    if i % 2 == 0 {
        if i + 1 < level.len() {
            level[i + 1 as int]
        } else {
            level[i as int]
        }
    } else {
        level[i - 1 as int]
    }
}

/// The merkle path of node `i`: its siblings, level by level, from its level up to the
/// root.
pub open spec fn spec_merkle_path(level: Seq<Seq<u8>>, i: nat) -> Seq<u8>
    decreases level.len(),
{
    if level.len() <= 1 {
        Seq::empty()
    } else {
        spec_sibling(level, i) + spec_merkle_path(spec_next_level(level), i / 2)
    }
}

proof fn lemma_path_reaches_root(level: Seq<Seq<u8>>, i: nat)
    requires
        1 <= level.len(),
        i < level.len(),
        forall|j: int| 0 <= j < level.len() ==> #[trigger] level[j].len() == 32,
    ensures
        spec_merkle_path(level, i).len() == 32 * spec_ceil_log2(level.len()),
        spec_root_from_path(level[i as int], spec_merkle_path(level, i), i) == spec_merkle_root(
            level,
        ),
    decreases level.len(),
{
    if level.len() > 1 {
        let next = spec_next_level(level);
        assert forall|j: int| 0 <= j < next.len() implies #[trigger] next[j].len() == 32 by {
            let left = level[2 * j];
            let right = if 2 * j + 1 < level.len() {
                level[2 * j + 1]
            } else {
                level[2 * j]
            };
            assert(next[j] == spec_sha256(left + right)@);
        }
        lemma_path_reaches_root(next, i / 2);
        let path = spec_merkle_path(level, i);
        let sibling = spec_sibling(level, i);
        let rest = spec_merkle_path(next, i / 2);
        assert(path.subrange(0, 32) =~= sibling);
        assert(path.subrange(32, path.len() as int) =~= rest);
        if i % 2 == 0 {
            assert(next[(i / 2) as int] == spec_sha256(level[i as int] + sibling)@);
        } else {
            assert(next[(i / 2) as int] == spec_sha256(sibling + level[i as int])@);
        }
    }
}

/// The merkle path that lists, level by level, the siblings of a leaf in the tree over
/// `leaves` leads from that leaf to the tree's root: checking it against the number of
/// leaves gives the root that the tree builder computes.
pub proof fn lemma_sibling_path_reaches_root(leaves: Seq<Seq<u8>>, index: u32)
    requires
        1 <= leaves.len() <= u32::MAX,
        index < leaves.len(),
        forall|j: int| 0 <= j < leaves.len() ==> #[trigger] leaves[j].len() == 32,
    ensures
        spec_compute_merkle_root_from_path(
            leaves[index as int],
            spec_merkle_path(leaves, index as nat),
            index,
            leaves.len() as u32,
        ) == spec_build_merkle_tree(leaves),
{
    lemma_path_reaches_root(leaves, index as nat);
    let k = spec_ceil_log2(leaves.len());
    assert((32 * k) / 32 == k) by (nonlinear_arith);
}

/// The root of the merkle tree over the leaf hashes, or an error when there is none.
pub open spec fn spec_build_merkle_tree(leaves: Seq<Seq<u8>>) -> VerificationResult<Seq<u8>> {
    if leaves.len() == 0 {
        Err(VerificationError::InvalidMerklePath)
    } else {
        Ok(spec_merkle_root(leaves))
    }
}

/// Builds a merkle tree from leaf hashes and returns the root.
pub fn build_merkle_tree(leaf_hashes: &[[u8; 32]]) -> (r: VerificationResult<[u8; 32]>)
    ensures
        hash_result_view(r) == spec_build_merkle_tree(hashes_view(leaf_hashes@)),
{
    if leaf_hashes.len() == 0 {
        return Err(VerificationError::InvalidMerklePath);
    }
    if leaf_hashes.len() == 1 {
        return Ok(leaf_hashes[0]);
    }
    let mut current_level: Vec<[u8; 32]> = vstd::slice::slice_to_vec(leaf_hashes);
    while current_level.len() > 1
        invariant
            current_level@.len() >= 1,
            spec_merkle_root(hashes_view(current_level@)) == spec_merkle_root(
                hashes_view(leaf_hashes@),
            ),
        decreases current_level@.len(),
    {
        let n = current_level.len();
        let half = n / 2 + n % 2;
        let ghost level = hashes_view(current_level@);
        let mut next_level: Vec<[u8; 32]> = Vec::new();
        let mut j: usize = 0;
        while j < half
            invariant
                n == current_level@.len(),
                n > 1,
                half == (n + 1) / 2,
                j <= half,
                level == hashes_view(current_level@),
                next_level@.len() == j,
                forall|t: int| 0 <= t < j ==> #[trigger] next_level@[t]@ == spec_next_level(level)[t],
            decreases half - j,
        {
            let left = current_level[2 * j];
            let right = if 2 * j + 1 < n {
                current_level[2 * j + 1]
            } else {
                current_level[2 * j]
            };
            let mut data: Vec<u8> = Vec::new();
            push_bytes(&mut data, left.as_slice());
            push_bytes(&mut data, right.as_slice());
            let parent_hash = sha256(data.as_slice());
            next_level.push(parent_hash);
            j = j + 1;
        }
        assert(hashes_view(next_level@) =~= spec_next_level(level));
        current_level = next_level;
    }
    Ok(current_level[0])
}

// ---------------------------------------------------------------------------------------
// A share within its slice
// ---------------------------------------------------------------------------------------

/// Whether `verify_share_in_slice` returns on this share: its merkle path is rejected
/// before anything else, or its difficulty is defined.
pub open spec fn share_in_slice_defined(share: Share, slice: Slice) -> bool {
    spec_verify_merkle_path(share, slice) is Err || share_difficulty_defined(share)
}

/// The result of verifying a share against its slice.
pub open spec fn spec_verify_share_in_slice(
    share: Share,
    slice: Slice,
    config: VerificationConfig,
) -> VerificationResult<ShareVerificationResult> {
    match spec_verify_merkle_path(share, slice) {
        Err(e) => Err(e),
        Ok(merkle_valid) => Ok(
            ShareVerificationResult {
                share_index: share.share_index,
                merkle_valid: if config.verify_all_merkle_paths {
                    merkle_valid && share.share_index < slice.number_of_shares
                } else {
                    true
                },
                difficulty_valid: spec_verify_share_difficulty(share, slice, config),
                fees_valid: spec_verify_share_fees(share, slice, config.fee_delta),
                slice_inclusion_valid: share.reference_job_id == slice.job_id,
                pow_valid: if config.verify_pow {
                    spec_verify_proof_of_work(share, config)
                } else {
                    true
                },
            },
        ),
    }
}

/// Verifies a single share against its containing slice.
pub fn verify_share_in_slice(share: &Share, slice: &Slice, config: &VerificationConfig) -> (r:
    VerificationResult<ShareVerificationResult>)
    requires
        share_in_slice_defined(*share, *slice),
    ensures
        r == spec_verify_share_in_slice(*share, *slice, *config),
{
    let merkle_valid = verify_merkle_path(share, slice)?;
    let index_valid = share.share_index < slice.number_of_shares;
    let difficulty_valid = verify_share_difficulty(share, slice, config)?;
    let fees_valid = verify_share_fees(share, slice, config.fee_delta)?;
    let slice_inclusion_valid = share.reference_job_id == slice.job_id;
    let pow_valid = if config.verify_pow {
        verify_proof_of_work(share, config)?
    } else {
        true
    };
    let merkle_valid = if config.verify_all_merkle_paths {
        merkle_valid && index_valid
    } else {
        true
    };
    Ok(
        ShareVerificationResult {
            share_index: share.share_index,
            merkle_valid,
            difficulty_valid,
            fees_valid,
            slice_inclusion_valid,
            pow_valid,
        },
    )
}

/// Verifies a share against its slice where that returns, and gives `None` where the
/// share's difficulty is not defined.
pub fn try_verify_share_in_slice(share: &Share, slice: &Slice, config: &VerificationConfig) -> (r:
    Option<VerificationResult<ShareVerificationResult>>)
    ensures
        r == (if share_in_slice_defined(*share, *slice) {
            Some(spec_verify_share_in_slice(*share, *slice, *config))
        } else {
            None
        }),
{
    let defined = is_share_difficulty_defined(share) || verify_merkle_path(share, slice).is_err();
    if defined {
        Some(verify_share_in_slice(share, slice, config))
    } else {
        None
    }
}

/// A share's result records its index, whether it names its slice's job, and the outcome
/// of the difficulty, fee, proof-of-work and merkle checks as the configuration asks.
pub proof fn lemma_share_result_fields(share: Share, slice: Slice, config: VerificationConfig)
    ensures
        spec_verify_share_in_slice(share, slice, config) matches Ok(r) ==> {
            &&& r.share_index == share.share_index
            &&& r.slice_inclusion_valid == (share.reference_job_id == slice.job_id)
            &&& r.difficulty_valid == spec_verify_share_difficulty(share, slice, config)
            &&& r.fees_valid == spec_verify_share_fees(share, slice, config.fee_delta)
            &&& r.pow_valid == (!config.verify_pow || spec_verify_proof_of_work(share, config))
            &&& r.merkle_valid == (!config.verify_all_merkle_paths || (spec_verify_merkle_path(
                share,
                slice,
            ) == Ok::<bool, VerificationError>(true) && share.share_index
                < slice.number_of_shares))
            &&& r.difficulty_valid == (spec_share_difficulty(share) >= config.min_share_difficulty
                && (!config.strict_difficulty || spec_share_difficulty(share) <= slice.difficulty)
                && spec_share_difficulty(share) > 0)
            &&& r.fees_valid == (spec_share_fees(share) as int <= if slice.fees + config.fee_delta
                > u64::MAX {
                u64::MAX as int
            } else {
                slice.fees + config.fee_delta
            })
            &&& r.pow_valid == (!config.verify_pow || spec_share_difficulty(share)
                >= config.min_share_difficulty)
        },
        spec_verify_share_in_slice(share, slice, config) matches Err(e) ==> e
            == VerificationError::InvalidMerklePath,
{
    lemma_share_difficulty_bounds(share, slice, config);
}

/// Inserts `v` into the set; says whether it was not there before.
fn insert_u32(set: &mut BTreeSet<u32>, v: u32) -> (fresh: bool)
    ensures
        final(set)@ == old(set)@.insert(v),
        fresh == !old(set)@.contains(v),
{
    broadcast use vstd::laws_cmp::group_laws_cmp;

    set.insert(v)
}

/// Inserts `v` into the set; says whether it was not there before.
fn insert_u64(set: &mut BTreeSet<u64>, v: u64) -> (fresh: bool)
    ensures
        final(set)@ == old(set)@.insert(v),
        fresh == !old(set)@.contains(v),
{
    broadcast use vstd::laws_cmp::group_laws_cmp;

    set.insert(v)
}

// ---------------------------------------------------------------------------------------
// Share indices
// ---------------------------------------------------------------------------------------

/// No two shares have the same index.
pub open spec fn share_indices_distinct(shares: Seq<Share>) -> bool {
    forall|i: int, j: int|
        0 <= i < j < shares.len() ==> #[trigger] shares[i].share_index
            != #[trigger] shares[j].share_index
}

/// Each share's index is its position (as a `u32`, that is modulo 2^32).
pub open spec fn share_indices_sequential(shares: Seq<Share>) -> bool {
    forall|i: int| 0 <= i < shares.len() ==> #[trigger] shares[i].share_index == i % 0x1_0000_0000
}

/// Whether the shares' indices are distinct and each is the share's position.
pub open spec fn spec_verify_share_indices_unique(shares: Seq<Share>) -> bool {
    share_indices_distinct(shares) && share_indices_sequential(shares)
}

/// Verifies that share indices are unique within a slice and sequential from 0.
pub fn verify_share_indices_unique(shares: &[Share]) -> (r: VerificationResult<bool>)
    ensures
        r == Ok::<bool, VerificationError>(spec_verify_share_indices_unique(shares@)),
{
    let n = shares.len();
    let mut indices: BTreeSet<u32> = BTreeSet::new();
    for i in 0..n
        invariant
            n == shares@.len(),
            forall|x: u32|
                indices@.contains(x) <==> exists|j: int|
                    0 <= j < i && #[trigger] shares@[j].share_index == x,
            forall|a: int, b: int|
                0 <= a < b < i ==> #[trigger] shares@[a].share_index
                    != #[trigger] shares@[b].share_index,
    {
        let index = shares[i].share_index;
        if !insert_u32(&mut indices, index) {
            // Duplicate index found
            proof {
                let j = choose|j: int| 0 <= j < i && #[trigger] shares@[j].share_index == index;
                assert(shares@[j].share_index == shares@[i as int].share_index);
            }
            return Ok(false);
        }
    }
    // Check that indices are sequential from 0
    for i in 0..n
        invariant
            n == shares@.len(),
            share_indices_distinct(shares@),
            forall|j: int| 0 <= j < i ==> #[trigger] shares@[j].share_index == j % 0x1_0000_0000,
    {
        let expected = ((i as u64) % 0x1_0000_0000) as u32;
        if shares[i].share_index != expected {
            return Ok(false);
        }
    }
    Ok(true)
}

/// The index check accepts the shares exactly when each share's index is its position:
/// 0 for the first, 1 for the second, and so on.
pub proof fn lemma_share_indices_are_positions(shares: Seq<Share>)
    ensures
        spec_verify_share_indices_unique(shares) <==> (forall|i: int|
            0 <= i < shares.len() ==> #[trigger] shares[i].share_index as int == i),
{
    if spec_verify_share_indices_unique(shares) {
        if shares.len() > 0x1_0000_0000 {
            assert(shares[0].share_index == 0int % 0x1_0000_0000);
            assert(shares[0x1_0000_0000].share_index == 0x1_0000_0000int % 0x1_0000_0000);
            assert(shares[0].share_index != shares[0x1_0000_0000].share_index);
        }
        assert forall|i: int| 0 <= i < shares.len() implies #[trigger] shares[i].share_index as int
            == i by {
            assert(shares[i].share_index == i % 0x1_0000_0000);
        }
    }
    if forall|i: int| 0 <= i < shares.len() ==> #[trigger] shares[i].share_index as int == i {
        assert forall|i: int| 0 <= i < shares.len() implies #[trigger] shares[i].share_index == i
            % 0x1_0000_0000 by {
            assert(shares[i].share_index as int == i);
        }
        assert forall|i: int, j: int| 0 <= i < j < shares.len() implies #[trigger] shares[i].share_index
            != #[trigger] shares[j].share_index by {
            assert(shares[i].share_index as int == i);
            assert(shares[j].share_index as int == j);
        }
    }
}

/// The leaf hashes of the shares, in the order given.
pub open spec fn shares_hashes(shares: Seq<Share>) -> Seq<Seq<u8>> {
    Seq::new(shares.len(), |i: int| spec_share_hash(shares[i]))
}

/// The result of checking the whole merkle tree of a slice.
pub open spec fn spec_verify_slice_merkle_tree(slice: Slice, shares: Seq<Share>) -> VerificationResult<bool> {
    if shares.len() == 0 {
        Ok(slice.number_of_shares == 0)
    } else if shares.len() != slice.number_of_shares as nat {
        Ok(false)
    } else if !spec_verify_share_indices_unique(shares) {
        Ok(false)
    } else {
        Ok(spec_merkle_root(shares_hashes(shares)) == slice.root@)
    }
}

/// The leaf hashes of the shares, in the order given.
fn share_hashes(shares: &[Share]) -> (hashes: Vec<[u8; 32]>)
    ensures
        hashes_view(hashes@) == shares_hashes(shares@),
{
    let n = shares.len();
    let mut hashes: Vec<[u8; 32]> = Vec::new();
    for i in 0..n
        invariant
            n == shares@.len(),
            hashes@.len() == i,
            forall|j: int| 0 <= j < i ==> #[trigger] hashes@[j]@ == spec_share_hash(shares@[j]),
    {
        match calculate_share_hash(&shares[i]) {
            Ok(h) => hashes.push(h),
            Err(_) => {
                return hashes;
            },
        }
    }
    assert(hashes_view(hashes@) =~= shares_hashes(shares@));
    hashes
}

/// Verifies the entire merkle tree structure for a slice.
pub fn verify_slice_merkle_tree(slice: &Slice, shares: &[Share]) -> (r: VerificationResult<bool>)
    ensures
        r == spec_verify_slice_merkle_tree(*slice, shares@),
{
    if shares.len() == 0 {
        return Ok(slice.number_of_shares == 0);
    }
    if shares.len() != slice.number_of_shares as usize {
        return Ok(false);
    }
    // Verify share indices are unique and sequential
    if !verify_share_indices_unique(shares)? {
        return Ok(false);
    }
    let share_hashes = share_hashes(shares);
    let calculated_root = build_merkle_tree(share_hashes.as_slice())?;
    let slice_root_bytes = slice.root.to_bytes();
    Ok(bytes32_eq(&calculated_root, &slice_root_bytes))
}

/// Some share has index `v`.
pub open spec fn index_present(shares: Seq<Share>, v: int) -> bool {
    exists|j: int| 0 <= j < shares.len() && #[trigger] shares[j].share_index == v
}

/// The indices of the shares are exactly `0..shares.len()`, each once.
pub open spec fn is_index_permutation(shares: Seq<Share>) -> bool {
    &&& forall|j: int| 0 <= j < shares.len() ==> #[trigger] shares[j].share_index < shares.len()
    &&& share_indices_distinct(shares)
    &&& forall|v: int| 0 <= v < shares.len() ==> #[trigger] index_present(shares, v)
}

/// The share whose index is `v`.
pub open spec fn share_with_index(shares: Seq<Share>, v: int) -> Share {
    shares[choose|j: int| 0 <= j < shares.len() && #[trigger] shares[j].share_index == v]
}

/// The leaf hashes of the shares ordered by index.
pub open spec fn hashes_by_index(shares: Seq<Share>) -> Seq<Seq<u8>> {
    Seq::new(shares.len(), |v: int| spec_share_hash(share_with_index(shares, v)))
}

/// Whether the shares, ordered by index, have indices `0..n` and form a merkle tree with
/// the expected root.
pub open spec fn spec_validate_shares_merkle_consistency(
    shares: Seq<Share>,
    expected_root: Seq<u8>,
) -> bool {
    shares.len() > 0 && is_index_permutation(shares) && spec_merkle_root(hashes_by_index(shares))
        == expected_root
}

/// Validates that a collection of shares, ordered by index, forms a merkle tree with the
/// expected root; the indices must be exactly `0..shares.len()`.
pub fn validate_shares_merkle_consistency(shares: &[Share], expected_root: &[u8; 32]) -> (r:
    VerificationResult<bool>)
    ensures
        r == Ok::<bool, VerificationError>(
            spec_validate_shares_merkle_consistency(shares@, expected_root@),
        ),
{
    let n = shares.len();
    if n == 0 {
        return Ok(false);
    }
    // position[v] is the position of the share with index v; n where there is none yet
    let mut position: Vec<usize> = Vec::new();
    for v in 0..n
        invariant
            position@.len() == v,
            forall|t: int| 0 <= t < v ==> #[trigger] position@[t] == n,
    {
        position.push(n);
    }
    for j in 0..n
        invariant
            n == shares@.len(),
            position@.len() == n,
            forall|t: int|
                0 <= t < j ==> #[trigger] shares@[t].share_index < n && position@[shares@[t].share_index as int] == t,
            forall|v: int|
                0 <= v < n ==> #[trigger] position@[v] == n || (position@[v] < j && shares@[position@[v] as int].share_index == v),
            forall|a: int, b: int|
                0 <= a < b < j ==> #[trigger] shares@[a].share_index
                    != #[trigger] shares@[b].share_index,
    {
        let index = shares[j].share_index as usize;
        if index >= n || position[index] != n {
            proof {
                if index >= n {
                    assert(shares@[j as int].share_index >= shares@.len());
                } else {
                    let t = position@[index as int];
                    assert(t < j);
                    assert(shares@[t as int].share_index == shares@[j as int].share_index);
                    assert(!share_indices_distinct(shares@));
                }
                assert(!is_index_permutation(shares@));
            }
            return Ok(false);
        }
        position.set(index, j);
    }
    for v in 0..n
        invariant
            n == shares@.len(),
            position@.len() == n,
            forall|t: int|
                0 <= t < n ==> #[trigger] shares@[t].share_index < n && position@[shares@[t].share_index as int] == t,
            forall|w: int|
                0 <= w < n ==> #[trigger] position@[w] == n || (position@[w] < n && shares@[position@[w] as int].share_index == w),
            forall|w: int| 0 <= w < v ==> #[trigger] position@[w] < n,
    {
        if position[v] == n {
            proof {
                if index_present(shares@, v as int) {
                    let j = choose|j: int| 0 <= j < n && #[trigger] shares@[j].share_index == v;
                    assert(position@[shares@[j].share_index as int] == j);
                }
                assert(!is_index_permutation(shares@));
            }
            return Ok(false);
        }
    }
    assert(is_index_permutation(shares@)) by {
        assert forall|w: int| 0 <= w < n implies #[trigger] index_present(shares@, w) by {
            assert(shares@[position@[w] as int].share_index == w);
        }
    }
    let mut hashes: Vec<[u8; 32]> = Vec::new();
    for v in 0..n
        invariant
            n == shares@.len(),
            position@.len() == n,
            is_index_permutation(shares@),
            forall|w: int|
                0 <= w < n ==> #[trigger] position@[w] < n && shares@[position@[w] as int].share_index == w,
            hashes@.len() == v,
            forall|w: int| 0 <= w < v ==> #[trigger] hashes@[w]@ == hashes_by_index(shares@)[w],
    {
        let p = position[v];
        let h = calculate_share_hash(&shares[p])?;
        proof {
            let c = choose|j: int| 0 <= j < shares@.len() && #[trigger] shares@[j].share_index == v;
            assert(shares@[p as int].share_index == v);
            if c != p {
                if c < p {
                    assert(shares@[c].share_index != shares@[p as int].share_index);
                } else {
                    assert(shares@[p as int].share_index != shares@[c].share_index);
                }
            }
        }
        hashes.push(h);
    }
    assert(hashes_view(hashes@) =~= hashes_by_index(shares@));
    let calculated_root = build_merkle_tree(hashes.as_slice())?;
    Ok(bytes32_eq(&calculated_root, expected_root))
}

/// For the shares of a slice given in index order, checking them against the slice's root
/// after ordering them by index agrees with checking the slice's whole merkle tree.
pub proof fn lemma_index_order_checks_agree(slice: Slice, shares: Seq<Share>)
    requires
        shares.len() == slice.number_of_shares,
        shares.len() >= 1,
        share_indices_sequential(shares),
    ensures
        spec_validate_shares_merkle_consistency(shares, slice.root@) == (spec_verify_slice_merkle_tree(
            slice,
            shares,
        ) == Ok::<bool, VerificationError>(true)),
{
    let n = shares.len();
    assert forall|i: int| 0 <= i < n implies #[trigger] shares[i].share_index == i by {
        assert(shares[i].share_index == i % 0x1_0000_0000);
    }
    assert(share_indices_distinct(shares));
    assert forall|v: int| 0 <= v < n implies #[trigger] index_present(shares, v) by {
        assert(shares[v].share_index == v);
    }
    assert(is_index_permutation(shares));
    assert forall|v: int| 0 <= v < n implies #[trigger] hashes_by_index(shares)[v] == shares_hashes(
        shares,
    )[v] by {
        let c = choose|j: int| 0 <= j < shares.len() && #[trigger] shares[j].share_index == v;
        assert(shares[v].share_index == v);
        assert(c == v);
    }
    assert(hashes_by_index(shares) =~= shares_hashes(shares));
}

/// `perm` maps each position of `b` to a position of `a` holding the same share, and
/// `inv` is its inverse: `b` is `a` reordered.
pub open spec fn is_reordering(a: Seq<Share>, b: Seq<Share>, perm: Seq<int>, inv: Seq<int>) -> bool {
    &&& a.len() == b.len()
    &&& perm.len() == b.len()
    &&& inv.len() == a.len()
    &&& forall|i: int|
        0 <= i < b.len() ==> 0 <= #[trigger] perm[i] < a.len() && b[i] == a[perm[i]] && inv[perm[i]]
            == i
    &&& forall|j: int| 0 <= j < a.len() ==> 0 <= #[trigger] inv[j] < b.len() && perm[inv[j]] == j
}

proof fn lemma_reordering_keeps_index_permutation(
    a: Seq<Share>,
    b: Seq<Share>,
    perm: Seq<int>,
    inv: Seq<int>,
)
    requires
        is_reordering(a, b, perm, inv),
        is_index_permutation(a),
    ensures
        is_index_permutation(b),
        forall|v: int| 0 <= v < b.len() ==> #[trigger] share_with_index(b, v) == share_with_index(a, v),
{
    let n = a.len();
    assert forall|i: int| 0 <= i < n implies #[trigger] b[i].share_index < n by {
        assert(b[i] == a[perm[i]]);
    }
    assert forall|i: int, j: int| 0 <= i < j < n implies #[trigger] b[i].share_index
        != #[trigger] b[j].share_index by {
        assert(b[i] == a[perm[i]]);
        assert(b[j] == a[perm[j]]);
        assert(inv[perm[i]] == i);
        assert(inv[perm[j]] == j);
        if perm[i] < perm[j] {
            assert(a[perm[i]].share_index != a[perm[j]].share_index);
        } else if perm[j] < perm[i] {
            assert(a[perm[j]].share_index != a[perm[i]].share_index);
        }
    }
    assert forall|v: int| 0 <= v < n implies #[trigger] index_present(b, v) by {
        assert(index_present(a, v));
        let j = choose|j: int| 0 <= j < a.len() && #[trigger] a[j].share_index == v;
        assert(perm[inv[j]] == j);
        assert(b[inv[j]] == a[j]);
    }
    assert forall|v: int| 0 <= v < n implies #[trigger] share_with_index(b, v) == share_with_index(a, v) by {
        let jb = choose|j: int| 0 <= j < b.len() && #[trigger] b[j].share_index == v;
        let ja = choose|j: int| 0 <= j < a.len() && #[trigger] a[j].share_index == v;
        assert(index_present(b, v));
        assert(index_present(a, v));
        assert(b[jb] == a[perm[jb]]);
        if perm[jb] != ja {
            if perm[jb] < ja {
                assert(a[perm[jb]].share_index != a[ja].share_index);
            } else {
                assert(a[ja].share_index != a[perm[jb]].share_index);
            }
        }
    }
}

/// The merkle consistency check does not depend on the order in which the shares are
/// given: reordering them gives the same answer for every expected root.
pub proof fn lemma_merkle_consistency_order_free(
    a: Seq<Share>,
    b: Seq<Share>,
    perm: Seq<int>,
    inv: Seq<int>,
    expected_root: Seq<u8>,
)
    requires
        is_reordering(a, b, perm, inv),
    ensures
        spec_validate_shares_merkle_consistency(b, expected_root)
            == spec_validate_shares_merkle_consistency(a, expected_root),
{
    let n = a.len();
    // `inv` reorders `b` back into `a`.
    assert forall|j: int| 0 <= j < n implies 0 <= #[trigger] inv[j] < b.len() && a[j] == b[inv[j]]
        && perm[inv[j]] == j by {
        assert(perm[inv[j]] == j);
        assert(b[inv[j]] == a[perm[inv[j]]]);
    }
    assert(is_reordering(b, a, inv, perm));
    if is_index_permutation(a) {
        lemma_reordering_keeps_index_permutation(a, b, perm, inv);
        assert(hashes_by_index(b) =~= hashes_by_index(a));
    } else if is_index_permutation(b) {
        lemma_reordering_keeps_index_permutation(b, a, inv, perm);
    }
}

/// How many times `v` occurs in `s`.
pub open spec fn count_of(s: Seq<u32>, v: u32) -> nat
    decreases s.len(),
{
    if s.len() == 0 {
        0
    } else {
        count_of(s.drop_last(), v) + if s.last() == v {
            1nat
        } else {
            0nat
        }
    }
}

/// The result of the advanced merkle path check: the index must be inside the slice, the
/// path must lead to the root, and the index must occur exactly once among all indices.
pub open spec fn spec_verify_merkle_path_advanced(
    share: Share,
    slice: Slice,
    all_share_indices: Seq<u32>,
) -> VerificationResult<bool> {
    if share.share_index >= slice.number_of_shares {
        Err(VerificationError::ShareIndexOutOfBounds)
    } else {
        match spec_verify_merkle_path(share, slice) {
            Err(e) => Err(e),
            Ok(false) => Ok(false),
            Ok(true) => Ok(count_of(all_share_indices, share.share_index) == 1),
        }
    }
}

/// Advanced merkle path verification with position tracking.
pub fn verify_merkle_path_advanced(share: &Share, slice: &Slice, all_share_indices: &[u32]) -> (r:
    VerificationResult<bool>)
    ensures
        r == spec_verify_merkle_path_advanced(*share, *slice, all_share_indices@),
{
    if share.share_index >= slice.number_of_shares {
        return Err(VerificationError::ShareIndexOutOfBounds);
    }
    let basic_verification = verify_merkle_path(share, slice)?;
    if !basic_verification {
        return Ok(false);
    }
    // Verify this share index appears exactly once
    let n = all_share_indices.len();
    let mut index_count: usize = 0;
    for i in 0..n
        invariant
            n == all_share_indices@.len(),
            index_count == count_of(all_share_indices@.take(i as int), share.share_index),
            index_count <= i,
    {
        assert(all_share_indices@.take(i + 1).drop_last() =~= all_share_indices@.take(i as int));
        if all_share_indices[i] == share.share_index {
            index_count = index_count + 1;
        }
    }
    assert(all_share_indices@.take(n as int) =~= all_share_indices@);
    Ok(index_count == 1)
}

/// The result of checking transaction hashes: none is no data, and every hash must be 32
/// bytes long.
pub open spec fn spec_validate_transaction_data(transaction_hashes: Seq<Vec<u8>>) -> VerificationResult<bool> {
    if transaction_hashes.len() == 0 {
        Ok(false)
    } else if exists|i: int|
        0 <= i < transaction_hashes.len() && #[trigger] transaction_hashes[i]@.len() != 32 {
        Err(VerificationError::InvalidTransactionData)
    } else {
        Ok(true)
    }
}

/// Validates transaction data integrity for fee calculations.
pub fn validate_transaction_data(share: &Share, transaction_hashes: &[Vec<u8>]) -> (r:
    VerificationResult<bool>)
    ensures
        r == spec_validate_transaction_data(transaction_hashes@),
{
    // Basic validation of transaction data
    if transaction_hashes.len() == 0 {
        return Ok(false);
    }
    // Ensure all transaction hashes are valid length (32 bytes)
    let n = transaction_hashes.len();
    for i in 0..n
        invariant
            n == transaction_hashes@.len(),
            forall|j: int| 0 <= j < i ==> #[trigger] transaction_hashes@[j]@.len() == 32,
    {
        if transaction_hashes[i].len() != 32 {
            return Err(VerificationError::InvalidTransactionData);
        }
    }
    Ok(true)
}

// ---------------------------------------------------------------------------------------
// Window structure
// ---------------------------------------------------------------------------------------

/// Every partial hash starts at a slice of the window.
pub open spec fn spec_verify_phash_consistency(window: GetWindowSuccess) -> bool {
    forall|i: int|
        0 <= i < window.phashes@.len() ==> #[trigger] window.phashes@[i].index_start
            < window.slices@.len()
}

/// Verifies that PHash entries correctly map to slices.
pub fn verify_phash_consistency(window: &GetWindowSuccess) -> (r: VerificationResult<bool>)
    ensures
        r == Ok::<bool, VerificationError>(spec_verify_phash_consistency(*window)),
{
    let slices_len = window.slices.len();
    let n = window.phashes.len();
    for i in 0..n
        invariant
            n == window.phashes@.len(),
            slices_len == window.slices@.len(),
            forall|j: int| 0 <= j < i ==> #[trigger] window.phashes@[j].index_start < slices_len,
    {
        let start_index = window.phashes[i].index_start as usize;
        if start_index >= slices_len {
            return Ok(false);
        }
    }
    Ok(true)
}

/// The checks made on each slice of a window: a non-zero job id, and no difficulty without
/// shares nor shares without difficulty.
pub open spec fn slice_structure_valid(slice: Slice) -> bool {
    &&& slice.job_id != 0
    &&& !(slice.number_of_shares == 0 && slice.difficulty > 0)
    &&& !(slice.difficulty == 0 && slice.number_of_shares > 0)
}

/// No two slices have the same job id.
pub open spec fn slice_job_ids_distinct(slices: Seq<Slice>) -> bool {
    forall|i: int, j: int|
        0 <= i < j < slices.len() ==> #[trigger] slices[i].job_id != #[trigger] slices[j].job_id
}

/// Whether a window is well formed: it has a slice, its slices have distinct job ids and
/// pass the slice checks, and its partial hashes are consistent.
pub open spec fn spec_verify_window_structure(window: GetWindowSuccess) -> bool {
    &&& window.slices@.len() > 0
    &&& slice_job_ids_distinct(window.slices@)
    &&& forall|i: int|
        0 <= i < window.slices@.len() ==> #[trigger] slice_structure_valid(window.slices@[i])
    &&& spec_verify_phash_consistency(window)
}

/// A window is well formed exactly when it has a slice; no two slices share a job id;
/// every slice has a non-zero job id and has shares exactly when it has difficulty (so a
/// slice with shares but no difficulty, or difficulty but no shares, is refused); and
/// every partial hash starts at one of the slices.
pub proof fn lemma_window_structure_conditions(window: GetWindowSuccess)
    ensures
        spec_verify_window_structure(window) <==> {
            &&& window.slices@.len() > 0
            &&& forall|i: int, j: int|
                0 <= i < window.slices@.len() && 0 <= j < window.slices@.len() && i != j
                    ==> #[trigger] window.slices@[i].job_id != #[trigger] window.slices@[j].job_id
            &&& forall|i: int|
                0 <= i < window.slices@.len() ==> #[trigger] window.slices@[i].job_id != 0
            &&& forall|i: int|
                0 <= i < window.slices@.len() ==> (#[trigger] window.slices@[i].number_of_shares > 0
                    <==> window.slices@[i].difficulty > 0)
            &&& forall|p: int|
                0 <= p < window.phashes@.len() ==> #[trigger] window.phashes@[p].index_start
                    < window.slices@.len()
        },
{
    let sl = window.slices@;
    if spec_verify_window_structure(window) {
        assert forall|i: int, j: int|
            0 <= i < sl.len() && 0 <= j < sl.len() && i != j implies #[trigger] sl[i].job_id
            != #[trigger] sl[j].job_id by {
            if i < j {
                assert(sl[i].job_id != sl[j].job_id);
            } else {
                assert(sl[j].job_id != sl[i].job_id);
            }
        }
        assert forall|i: int| 0 <= i < sl.len() implies #[trigger] sl[i].job_id != 0 by {
            assert(slice_structure_valid(sl[i]));
        }
        assert forall|i: int| 0 <= i < sl.len() implies (#[trigger] sl[i].number_of_shares > 0
            <==> sl[i].difficulty > 0) by {
            assert(slice_structure_valid(sl[i]));
        }
    }
    if ({
        &&& sl.len() > 0
        &&& forall|i: int, j: int|
            0 <= i < sl.len() && 0 <= j < sl.len() && i != j ==> #[trigger] sl[i].job_id
                != #[trigger] sl[j].job_id
        &&& forall|i: int| 0 <= i < sl.len() ==> #[trigger] sl[i].job_id != 0
        &&& forall|i: int|
            0 <= i < sl.len() ==> (#[trigger] sl[i].number_of_shares > 0 <==> sl[i].difficulty
                > 0)
        &&& forall|p: int|
            0 <= p < window.phashes@.len() ==> #[trigger] window.phashes@[p].index_start < sl.len()
    }) {
        assert forall|i: int| 0 <= i < sl.len() implies #[trigger] slice_structure_valid(sl[i]) by {
            assert(sl[i].job_id != 0);
            assert(sl[i].number_of_shares > 0 <==> sl[i].difficulty > 0);
        }
        assert(slice_job_ids_distinct(sl));
    }
}

/// Verifies PPLNS window structure and mathematical consistency.
pub fn verify_window_structure(window: &GetWindowSuccess) -> (r: VerificationResult<bool>)
    ensures
        r == Ok::<bool, VerificationError>(spec_verify_window_structure(*window)),
{
    let n = window.slices.len();
    if n == 0 {
        return Ok(false);
    }
    // Check for duplicate job IDs and basic consistency
    let mut job_ids: BTreeSet<u64> = BTreeSet::new();
    for i in 0..n
        invariant
            n == window.slices@.len(),
            forall|x: u64|
                job_ids@.contains(x) <==> exists|j: int|
                    0 <= j < i && #[trigger] window.slices@[j].job_id == x,
            slice_job_ids_distinct(window.slices@.take(i as int)),
            forall|j: int| 0 <= j < i ==> #[trigger] slice_structure_valid(window.slices@[j]),
    {
        let slice = &window.slices[i];
        // Check for duplicate job IDs
        if !insert_u64(&mut job_ids, slice.job_id) {
            proof {
                let j = choose|j: int| 0 <= j < i && #[trigger] window.slices@[j].job_id == slice.job_id;
                assert(window.slices@[j].job_id == window.slices@[i as int].job_id);
            }
            return Ok(false);
        }
        // Basic consistency checks
        if slice.job_id == 0 {
            assert(!slice_structure_valid(window.slices@[i as int]));
            return Ok(false);
        }
        if slice.number_of_shares == 0 && slice.difficulty > 0 {
            assert(!slice_structure_valid(window.slices@[i as int]));
            return Ok(false);
        }
        if slice.difficulty == 0 && slice.number_of_shares > 0 {
            assert(!slice_structure_valid(window.slices@[i as int]));
            return Ok(false);
        }
        assert(slice_job_ids_distinct(window.slices@.take(i + 1))) by {
            assert forall|a: int, b: int|
                0 <= a < b < i + 1 implies #[trigger] window.slices@.take(i + 1)[a].job_id
                != #[trigger] window.slices@.take(i + 1)[b].job_id by {
                if b < i {
                    assert(window.slices@.take(i as int)[a] == window.slices@[a]);
                    assert(window.slices@.take(i as int)[b] == window.slices@[b]);
                }
            }
        }
    }
    assert(window.slices@.take(n as int) =~= window.slices@);
    verify_phash_consistency(window)
}

// ---------------------------------------------------------------------------------------
// Slice integrity
// ---------------------------------------------------------------------------------------

/// Result of slice integrity verification.
#[derive(Debug, Clone, PartialEq)]
pub struct SliceVerificationResult {
    pub slice_job_id: u64,
    pub total_shares_valid: bool,
    pub difficulty_sum_valid: bool,
    pub merkle_tree_valid: bool,
    pub share_results: Vec<ShareVerificationResult>,
    pub fees_sum_valid: bool,
}

/// The content of a `SliceVerificationResult`, the share results as a sequence.
pub struct SliceVerificationModel {
    pub slice_job_id: u64,
    pub total_shares_valid: bool,
    pub difficulty_sum_valid: bool,
    pub merkle_tree_valid: bool,
    pub share_results: Seq<ShareVerificationResult>,
    pub fees_sum_valid: bool,
}

impl View for SliceVerificationResult {
    type V = SliceVerificationModel;

    open spec fn view(&self) -> SliceVerificationModel {
        SliceVerificationModel {
            slice_job_id: self.slice_job_id,
            total_shares_valid: self.total_shares_valid,
            difficulty_sum_valid: self.difficulty_sum_valid,
            merkle_tree_valid: self.merkle_tree_valid,
            share_results: self.share_results@,
            fees_sum_valid: self.fees_sum_valid,
        }
    }
}

/// A slice result seen through its model.
pub open spec fn slice_result_view(r: VerificationResult<SliceVerificationResult>) -> VerificationResult<SliceVerificationModel> {
    match r {
        Ok(v) => Ok(v@),
        Err(e) => Err(e),
    }
}

/// The state after the first `k` shares of a slice: the share results, the sum of the
/// difficulties of the shares whose difficulty is valid and the sum of the fees of the
/// shares whose fees are valid. `None` where verifying those shares is not defined (an
/// undefined difficulty, or a sum that overflows `u64`).
pub open spec fn slice_share_fold(
    slice: Slice,
    shares: Seq<Share>,
    config: VerificationConfig,
    k: nat,
) -> Option<VerificationResult<(Seq<ShareVerificationResult>, u64, u64)>>
    decreases k,
{
    if k == 0 {
        Some(Ok((Seq::empty(), 0u64, 0u64)))
    } else {
        match slice_share_fold(slice, shares, config, (k - 1) as nat) {
            None => None,
            Some(Err(e)) => Some(Err(e)),
            Some(Ok((results, total_difficulty, total_fees))) => {
                let share = shares[k - 1];
                if !share_in_slice_defined(share, slice) {
                    None
                } else {
                    match spec_verify_share_in_slice(share, slice, config) {
                        Err(e) => Some(Err(e)),
                        Ok(r) => {
                            let td: int = if r.difficulty_valid {
                                total_difficulty + spec_share_difficulty(share)
                            } else {
                                total_difficulty as int
                            };
                            let tf: int = if r.fees_valid {
                                total_fees + spec_share_fees(share)
                            } else {
                                total_fees as int
                            };
                            if td > u64::MAX || tf > u64::MAX {
                                None
                            } else {
                                Some(Ok((results.push(r), td as u64, tf as u64)))
                            }
                        },
                    }
                }
            },
        }
    }
}

/// Once the fold over the shares has stopped, on a panic or an error, it stays stopped.
proof fn lemma_slice_fold_stops(
    slice: Slice,
    shares: Seq<Share>,
    config: VerificationConfig,
    k: nat,
    m: nat,
)
    requires
        k <= m,
        !(slice_share_fold(slice, shares, config, k) matches Some(Ok(_))),
    ensures
        slice_share_fold(slice, shares, config, m) == slice_share_fold(slice, shares, config, k),
    decreases m,
{
    if k < m {
        lemma_slice_fold_stops(slice, shares, config, k, (m - 1) as nat);
    }
}

/// After `k` shares, the fold holds one result per share, in order, each the share's own
/// check; its only error is a rejected merkle path.
proof fn lemma_slice_fold_results(
    slice: Slice,
    shares: Seq<Share>,
    config: VerificationConfig,
    k: nat,
)
    requires
        k <= shares.len(),
    ensures
        slice_share_fold(slice, shares, config, k) matches Some(Ok((results, _, _))) ==> {
            &&& results.len() == k
            &&& forall|i: int|
                0 <= i < k ==> Ok::<_, VerificationError>(#[trigger] results[i])
                    == spec_verify_share_in_slice(shares[i], slice, config)
        },
        slice_share_fold(slice, shares, config, k) matches Some(Err(e)) ==> e
            == VerificationError::InvalidMerklePath,
    decreases k,
{
    if k > 0 {
        lemma_slice_fold_results(slice, shares, config, (k - 1) as nat);
        lemma_share_result_fields(shares[k - 1], slice, config);
    }
}

/// The result of verifying a slice and its shares; `None` where it is not defined.
pub open spec fn spec_validate_slice_integrity(
    slice: Slice,
    shares: Seq<Share>,
    config: VerificationConfig,
) -> Option<VerificationResult<SliceVerificationModel>> {
    if slice.number_of_shares == 0 && slice.difficulty > 0 {
        Some(Err(VerificationError::InvalidJobId))
    } else if shares.len() != slice.number_of_shares as nat {
        Some(
            Ok(
                SliceVerificationModel {
                    slice_job_id: slice.job_id,
                    total_shares_valid: false,
                    difficulty_sum_valid: false,
                    merkle_tree_valid: false,
                    share_results: Seq::empty(),
                    fees_sum_valid: false,
                },
            ),
        )
    } else {
        match slice_share_fold(slice, shares, config, shares.len()) {
            None => None,
            Some(Err(e)) => Some(Err(e)),
            Some(Ok((results, total_difficulty, total_fees))) => {
                let merkle = if config.verify_all_merkle_paths {
                    spec_verify_slice_merkle_tree(slice, shares)
                } else {
                    Ok(spec_verify_share_indices_unique(shares))
                };
                match merkle {
                    Err(e) => Some(Err(e)),
                    Ok(merkle_tree_valid) => Some(
                        Ok(
                            SliceVerificationModel {
                                slice_job_id: slice.job_id,
                                total_shares_valid: true,
                                difficulty_sum_valid: if config.strict_difficulty {
                                    total_difficulty <= slice.difficulty
                                } else {
                                    total_difficulty > 0
                                },
                                merkle_tree_valid,
                                share_results: results,
                                fees_sum_valid: total_fees <= saturating_add(
                                    slice.fees,
                                    config.fee_delta,
                                ),
                            },
                        ),
                    ),
                }
            },
        }
    }
}

/// The sum of the difficulties of those of the first `k` shares whose result marks their
/// difficulty as valid.
pub open spec fn sum_valid_share_difficulties(
    shares: Seq<Share>,
    results: Seq<ShareVerificationResult>,
    k: nat,
) -> int
    decreases k,
{
    if k == 0 {
        0
    } else {
        sum_valid_share_difficulties(shares, results, (k - 1) as nat) + if results[k
            - 1].difficulty_valid {
            spec_share_difficulty(shares[k - 1]) as int
        } else {
            0
        }
    }
}

/// The sum of the fees of those of the first `k` shares whose result marks their fees as
/// valid.
pub open spec fn sum_valid_share_fees(
    shares: Seq<Share>,
    results: Seq<ShareVerificationResult>,
    k: nat,
) -> int
    decreases k,
{
    if k == 0 {
        0
    } else {
        sum_valid_share_fees(shares, results, (k - 1) as nat) + if results[k - 1].fees_valid {
            spec_share_fees(shares[k - 1]) as int
        } else {
            0
        }
    }
}

proof fn lemma_share_sums_prefix(
    shares: Seq<Share>,
    a: Seq<ShareVerificationResult>,
    b: Seq<ShareVerificationResult>,
    k: nat,
)
    requires
        k <= a.len(),
        k <= b.len(),
        forall|i: int| 0 <= i < k ==> #[trigger] a[i] == b[i],
    ensures
        sum_valid_share_difficulties(shares, a, k) == sum_valid_share_difficulties(shares, b, k),
        sum_valid_share_fees(shares, a, k) == sum_valid_share_fees(shares, b, k),
    decreases k,
{
    if k > 0 {
        lemma_share_sums_prefix(shares, a, b, (k - 1) as nat);
    }
}

/// After `k` shares, the fold's two totals are the sums of the difficulties and of the
/// fees of the shares whose result marks them valid.
proof fn lemma_slice_fold_sums(
    slice: Slice,
    shares: Seq<Share>,
    config: VerificationConfig,
    k: nat,
)
    requires
        k <= shares.len(),
    ensures
        slice_share_fold(slice, shares, config, k) matches Some(Ok((results, td, tf))) ==> {
            &&& results.len() == k
            &&& td == sum_valid_share_difficulties(shares, results, k)
            &&& tf == sum_valid_share_fees(shares, results, k)
        },
    decreases k,
{
    if k > 0 {
        lemma_slice_fold_sums(slice, shares, config, (k - 1) as nat);
        if let Some(Ok((results, td, tf))) = slice_share_fold(slice, shares, config, k) {
            if let Some(Ok((prev, _, _))) = slice_share_fold(slice, shares, config, (k - 1) as nat) {
                assert(results.drop_last() =~= prev);
                lemma_share_sums_prefix(shares, results, prev, (k - 1) as nat);
            }
        }
    }
}

/// For a slice given as many shares as it counts, the slice's difficulty sum is accepted,
/// under strict checking, exactly when the difficulties of its shares whose difficulty is
/// valid add up to at most the slice's difficulty (a sum equal to it is accepted), and
/// otherwise exactly when they add up to more than 0; its fee sum is accepted exactly when
/// the fees of its shares whose fees are valid add up to at most the slice's fees plus the
/// allowed delta (capped at `u64::MAX`).
pub proof fn lemma_slice_difficulty_and_fee_sums(
    slice: Slice,
    shares: Seq<Share>,
    config: VerificationConfig,
)
    ensures
        shares.len() == slice.number_of_shares ==> (spec_validate_slice_integrity(
            slice,
            shares,
            config,
        ) matches Some(Ok(r)) ==> {
            &&& r.share_results.len() == shares.len()
            &&& r.difficulty_sum_valid == if config.strict_difficulty {
                sum_valid_share_difficulties(shares, r.share_results, shares.len())
                    <= slice.difficulty
            } else {
                sum_valid_share_difficulties(shares, r.share_results, shares.len()) > 0
            }
            &&& r.fees_sum_valid == (sum_valid_share_fees(shares, r.share_results, shares.len())
                <= if slice.fees + config.fee_delta > u64::MAX {
                u64::MAX as int
            } else {
                slice.fees + config.fee_delta
            })
        }),
{
    lemma_slice_fold_sums(slice, shares, config, shares.len());
}

/// A slice that is not marked with difficulty but no shares, given as many shares as it
/// counts, is reported with its job id, its share count accepted, and one result per
/// share, in order, each that share's own check. The only error a slice with such a
/// count can give is a rejected merkle path.
pub proof fn lemma_slice_results_per_share(
    slice: Slice,
    shares: Seq<Share>,
    config: VerificationConfig,
)
    requires
        !(slice.number_of_shares == 0 && slice.difficulty > 0),
    ensures
        shares.len() == slice.number_of_shares ==> (spec_validate_slice_integrity(
            slice,
            shares,
            config,
        ) matches Some(Ok(r)) ==> {
            &&& r.slice_job_id == slice.job_id
            &&& r.total_shares_valid
            &&& r.share_results.len() == shares.len()
            &&& forall|i: int|
                0 <= i < shares.len() ==> Ok::<_, VerificationError>(
                    #[trigger] r.share_results[i],
                ) == spec_verify_share_in_slice(shares[i], slice, config)
        }),
        spec_validate_slice_integrity(slice, shares, config) matches Some(Err(e)) ==> e
            == VerificationError::InvalidMerklePath,
{
    lemma_slice_fold_results(slice, shares, config, shares.len());
}

fn slice_integrity_core(slice: &Slice, shares: &[Share], config: &VerificationConfig) -> (r:
    Option<VerificationResult<SliceVerificationResult>>)
    ensures
        match r {
            Some(v) => spec_validate_slice_integrity(*slice, shares@, *config) == Some(
                slice_result_view(v),
            ),
            None => spec_validate_slice_integrity(*slice, shares@, *config) is None,
        },
{
    let mut share_results: Vec<ShareVerificationResult> = Vec::new();
    let mut total_difficulty = 0u64;
    let mut total_fees = 0u64;
    // Basic slice validation
    if slice.number_of_shares == 0 && slice.difficulty > 0 {
        return Some(Err(VerificationError::InvalidJobId));
    }
    if shares.len() != slice.number_of_shares as usize {
        let r = SliceVerificationResult {
            slice_job_id: slice.job_id,
            total_shares_valid: false,
            difficulty_sum_valid: false,
            merkle_tree_valid: false,
            share_results: Vec::new(),
            fees_sum_valid: false,
        };
        assert(r@.share_results =~= Seq::<ShareVerificationResult>::empty());
        return Some(Ok(r));
    }
    let n = shares.len();
    // Verify each share
    for i in 0..n
        invariant
            n == shares@.len(),
            n == slice.number_of_shares,
            !(slice.number_of_shares == 0 && slice.difficulty > 0),
            slice_share_fold(*slice, shares@, *config, i as nat) == Some(
                Ok::<_, VerificationError>((share_results@, total_difficulty, total_fees)),
            ),
    {
        let share = &shares[i];
        let defined = is_share_difficulty_defined(share) || verify_merkle_path(share, slice).is_err();
        if !defined {
            proof {
                lemma_slice_fold_stops(*slice, shares@, *config, (i + 1) as nat, n as nat);
            }
            return None;
        }
        let share_result = match verify_share_in_slice(share, slice, config) {
            Ok(r) => r,
            Err(e) => {
                proof {
                    lemma_slice_fold_stops(*slice, shares@, *config, (i + 1) as nat, n as nat);
                }
                return Some(Err(e));
            },
        };
        if share_result.difficulty_valid {
            let difficulty = match calculate_share_difficulty(share) {
                Ok(d) => d,
                Err(e) => {
                    return Some(Err(e));
                },
            };
            match total_difficulty.checked_add(difficulty) {
                Some(t) => {
                    total_difficulty = t;
                },
                None => {
                    proof {
                        lemma_slice_fold_stops(*slice, shares@, *config, (i + 1) as nat, n as nat);
                    }
                    return None;
                },
            }
        }
        if share_result.fees_valid {
            let fees = match calculate_share_fees(share) {
                Ok(f) => f,
                Err(e) => {
                    return Some(Err(e));
                },
            };
            match total_fees.checked_add(fees) {
                Some(t) => {
                    total_fees = t;
                },
                None => {
                    proof {
                        lemma_slice_fold_stops(*slice, shares@, *config, (i + 1) as nat, n as nat);
                    }
                    return None;
                },
            }
        }
        share_results.push(share_result);
    }
    let difficulty_sum_valid = if config.strict_difficulty {
        total_difficulty <= slice.difficulty
    } else {
        total_difficulty > 0
    };
    let fees_sum_valid = total_fees <= slice.fees.saturating_add(config.fee_delta);
    // Verify merkle tree structure if requested
    let merkle_tree_valid = if config.verify_all_merkle_paths {
        match verify_slice_merkle_tree(slice, shares) {
            Ok(b) => b,
            Err(e) => {
                return Some(Err(e));
            },
        }
    } else {
        // At minimum, verify no duplicate share indices
        match verify_share_indices_unique(shares) {
            Ok(b) => b,
            Err(e) => {
                return Some(Err(e));
            },
        }
    };
    Some(
        Ok(
            SliceVerificationResult {
                slice_job_id: slice.job_id,
                total_shares_valid: true,
                difficulty_sum_valid,
                merkle_tree_valid,
                share_results,
                fees_sum_valid,
            },
        ),
    )
}

/// Validates slice integrity with comprehensive checks.
pub fn validate_slice_integrity(slice: &Slice, shares: &[Share], config: &VerificationConfig) -> (r:
    VerificationResult<SliceVerificationResult>)
    requires
        spec_validate_slice_integrity(*slice, shares@, *config) is Some,
    ensures
        spec_validate_slice_integrity(*slice, shares@, *config) == Some(slice_result_view(r)),
{
    match slice_integrity_core(slice, shares, config) {
        Some(r) => r,
        None => {
            proof {
                assert(false);
            }
            Err(VerificationError::CalculationError)
        },
    }
}

/// Validates slice integrity where that returns; `None` where a share's difficulty is not
/// defined or a sum overflows.
pub fn try_validate_slice_integrity(
    slice: &Slice,
    shares: &[Share],
    config: &VerificationConfig,
) -> (r: Option<VerificationResult<SliceVerificationResult>>)
    ensures
        match r {
            Some(v) => spec_validate_slice_integrity(*slice, shares@, *config) == Some(
                slice_result_view(v),
            ),
            None => spec_validate_slice_integrity(*slice, shares@, *config) is None,
        },
{
    if slice_integrity_core(slice, shares, config).is_some() {
        Some(validate_slice_integrity(slice, shares, config))
    } else {
        None
    }
}

// ---------------------------------------------------------------------------------------
// PPLNS window
// ---------------------------------------------------------------------------------------

/// Result of PPLNS window verification.
#[derive(Debug, Clone, PartialEq)]
pub struct WindowVerificationResult {
    pub window_valid: bool,
    pub total_difficulty: u64,
    pub slice_results: Vec<SliceVerificationResult>,
    pub phash_consistency: bool,
    pub window_size_valid: bool,
}

/// The content of a `WindowVerificationResult`, the slice results as a sequence of models.
pub struct WindowVerificationModel {
    pub window_valid: bool,
    pub total_difficulty: u64,
    pub slice_results: Seq<SliceVerificationModel>,
    pub phash_consistency: bool,
    pub window_size_valid: bool,
}

/// The models of a sequence of slice results.
pub open spec fn slice_models(v: Seq<SliceVerificationResult>) -> Seq<SliceVerificationModel> {
    Seq::new(v.len(), |i: int| v[i]@)
}

impl View for WindowVerificationResult {
    type V = WindowVerificationModel;

    open spec fn view(&self) -> WindowVerificationModel {
        WindowVerificationModel {
            window_valid: self.window_valid,
            total_difficulty: self.total_difficulty,
            slice_results: slice_models(self.slice_results@),
            phash_consistency: self.phash_consistency,
            window_size_valid: self.window_size_valid,
        }
    }
}

/// A window result seen through its model.
pub open spec fn window_result_view(r: VerificationResult<WindowVerificationResult>) -> VerificationResult<WindowVerificationModel> {
    match r {
        Ok(v) => Ok(v@),
        Err(e) => Err(e),
    }
}

/// The shares that the map holds for a job; none where it holds nothing for it.
pub open spec fn shares_for_job(map: Map<u64, Vec<Share>>, job_id: u64) -> Seq<Share> {
    if map.contains_key(job_id) {
        map[job_id]@
    } else {
        Seq::empty()
    }
}

/// Looks the job up in the map.
fn shares_of_job(map: &BTreeMap<u64, Vec<Share>>, job_id: u64) -> (r: Option<&Vec<Share>>)
    ensures
        match r {
            Some(v) => map@.contains_key(job_id) && map@[job_id] == *v,
            None => !map@.contains_key(job_id),
        },
{
    broadcast use vstd::laws_cmp::group_laws_cmp;
    broadcast use vstd::std_specs::btree::axiom_maps_deref_key_to_value;
    broadcast use vstd::std_specs::btree::axiom_contains_deref_key;

    map.get(&job_id)
}

/// A slice result that passed all four of its checks.
pub open spec fn slice_model_valid(m: SliceVerificationModel) -> bool {
    m.total_shares_valid && m.difficulty_sum_valid && m.merkle_tree_valid && m.fees_sum_valid
}

/// The state after the first `k` slices of a window: the slice results and the sum of the
/// difficulties of the slices whose difficulty sum is valid. `None` where it is not
/// defined (in a slice, or on a sum that overflows `u64`).
pub open spec fn window_slice_fold(
    window: GetWindowSuccess,
    map: Map<u64, Vec<Share>>,
    config: VerificationConfig,
    k: nat,
) -> Option<VerificationResult<(Seq<SliceVerificationModel>, u64)>>
    decreases k,
{
    if k == 0 {
        Some(Ok((Seq::empty(), 0u64)))
    } else {
        match window_slice_fold(window, map, config, (k - 1) as nat) {
            None => None,
            Some(Err(e)) => Some(Err(e)),
            Some(Ok((results, total_difficulty))) => {
                let slice = window.slices@[k - 1];
                match spec_validate_slice_integrity(
                    slice,
                    shares_for_job(map, slice.job_id),
                    config,
                ) {
                    None => None,
                    Some(Err(e)) => Some(Err(e)),
                    Some(Ok(m)) => {
                        let td: int = if m.difficulty_sum_valid {
                            total_difficulty + slice.difficulty
                        } else {
                            total_difficulty as int
                        };
                        if td > u64::MAX {
                            None
                        } else {
                            Some(Ok((results.push(m), td as u64)))
                        }
                    },
                }
            },
        }
    }
}

/// Once the fold over the slices has stopped, on a panic or an error, it stays stopped.
proof fn lemma_window_fold_stops(
    window: GetWindowSuccess,
    map: Map<u64, Vec<Share>>,
    config: VerificationConfig,
    k: nat,
    m: nat,
)
    requires
        k <= m,
        !(window_slice_fold(window, map, config, k) matches Some(Ok(_))),
    ensures
        window_slice_fold(window, map, config, m) == window_slice_fold(window, map, config, k),
    decreases m,
{
    if k < m {
        lemma_window_fold_stops(window, map, config, k, (m - 1) as nat);
    }
}

/// The result of verifying a window with the shares that the map holds for each of its
/// slices; `None` where it is not defined.
pub open spec fn spec_verify_pplns_window(
    window: GetWindowSuccess,
    map: Map<u64, Vec<Share>>,
    config: VerificationConfig,
) -> Option<VerificationResult<WindowVerificationModel>> {
    if !spec_verify_window_structure(window) {
        Some(
            Ok(
                WindowVerificationModel {
                    window_valid: false,
                    total_difficulty: 0,
                    slice_results: Seq::empty(),
                    phash_consistency: false,
                    window_size_valid: false,
                },
            ),
        )
    } else {
        match window_slice_fold(window, map, config, window.slices@.len()) {
            None => None,
            Some(Err(e)) => Some(Err(e)),
            Some(Ok((results, total_difficulty))) => {
                let phash_consistency = spec_verify_phash_consistency(window);
                Some(
                    Ok(
                        WindowVerificationModel {
                            window_valid: (forall|i: int|
                                0 <= i < results.len() ==> #[trigger] slice_model_valid(
                                    results[i],
                                )) && phash_consistency,
                            total_difficulty,
                            slice_results: results,
                            phash_consistency,
                            window_size_valid: true,
                        },
                    ),
                )
            },
        }
    }
}

/// The sum of the difficulties of the first `k` slices whose result has a valid
/// difficulty sum.
pub open spec fn valid_difficulty_sum(
    slices: Seq<Slice>,
    results: Seq<SliceVerificationModel>,
    k: nat,
) -> int
    decreases k,
{
    if k == 0 {
        0
    } else {
        valid_difficulty_sum(slices, results, (k - 1) as nat) + if results[k - 1].difficulty_sum_valid {
            slices[k - 1].difficulty as int
        } else {
            0
        }
    }
}

/// After `k` slices of a well-formed window, the fold holds one result per slice, in
/// order, each that slice's own check on the shares the map holds for its job, and the
/// sum of the difficulties of the slices whose difficulty sum is valid; its only error is
/// a rejected merkle path.
proof fn lemma_window_fold_results(
    window: GetWindowSuccess,
    map: Map<u64, Vec<Share>>,
    config: VerificationConfig,
    k: nat,
)
    requires
        k <= window.slices@.len(),
        spec_verify_window_structure(window),
    ensures
        window_slice_fold(window, map, config, k) matches Some(Ok((results, total))) ==> {
            &&& results.len() == k
            &&& forall|i: int|
                0 <= i < k ==> Some(Ok::<_, VerificationError>(#[trigger] results[i]))
                    == spec_validate_slice_integrity(
                    window.slices@[i],
                    shares_for_job(map, window.slices@[i].job_id),
                    config,
                )
            &&& total == valid_difficulty_sum(window.slices@, results, k)
        },
        window_slice_fold(window, map, config, k) matches Some(Err(e)) ==> e
            == VerificationError::InvalidMerklePath,
    decreases k,
{
    if k > 0 {
        lemma_window_fold_results(window, map, config, (k - 1) as nat);
        let slice = window.slices@[k - 1];
        assert(slice_structure_valid(slice));
        lemma_slice_results_per_share(slice, shares_for_job(map, slice.job_id), config);
        if let Some(Ok((results, total))) = window_slice_fold(window, map, config, k) {
            if let Some(Ok((prev, _))) = window_slice_fold(window, map, config, (k - 1) as nat) {
                assert(results.drop_last() =~= prev);
                assert(valid_difficulty_sum(window.slices@, results, (k - 1) as nat)
                    == valid_difficulty_sum(window.slices@, prev, (k - 1) as nat)) by {
                    lemma_valid_difficulty_sum_prefix(window.slices@, results, prev, (k - 1) as nat);
                }
            }
        }
    }
}

proof fn lemma_valid_difficulty_sum_prefix(
    slices: Seq<Slice>,
    a: Seq<SliceVerificationModel>,
    b: Seq<SliceVerificationModel>,
    k: nat,
)
    requires
        k <= a.len(),
        k <= b.len(),
        forall|i: int| 0 <= i < k ==> #[trigger] a[i] == b[i],
    ensures
        valid_difficulty_sum(slices, a, k) == valid_difficulty_sum(slices, b, k),
    decreases k,
{
    if k > 0 {
        lemma_valid_difficulty_sum_prefix(slices, a, b, (k - 1) as nat);
    }
}

/// The PPLNS window check on a well-formed window reports the window's size and partial
/// hashes as valid, gives one result per slice, in order, each that slice's own check on
/// the shares the map holds for its job, totals the difficulties of the slices whose
/// difficulty sum is valid, and calls the window valid exactly when every slice passed all
/// four of its checks. Whatever the window, the only error it gives is a rejected merkle
/// path: a slice's invalid job id is never reported as an error.
pub proof fn lemma_window_results_per_slice(
    window: GetWindowSuccess,
    map: Map<u64, Vec<Share>>,
    config: VerificationConfig,
)
    ensures
        spec_verify_window_structure(window) ==> (spec_verify_pplns_window(
            window,
            map,
            config,
        ) matches Some(Ok(r)) ==> {
            &&& r.window_size_valid
            &&& r.phash_consistency
            &&& r.slice_results.len() == window.slices@.len()
            &&& forall|i: int|
                0 <= i < window.slices@.len() ==> Some(
                    Ok::<_, VerificationError>(#[trigger] r.slice_results[i]),
                ) == spec_validate_slice_integrity(
                    window.slices@[i],
                    shares_for_job(map, window.slices@[i].job_id),
                    config,
                )
            &&& r.total_difficulty == valid_difficulty_sum(
                window.slices@,
                r.slice_results,
                window.slices@.len(),
            )
            &&& r.window_valid == (forall|i: int|
                0 <= i < r.slice_results.len() ==> #[trigger] slice_model_valid(r.slice_results[i]))
        }),
        spec_verify_pplns_window(window, map, config) matches Some(Err(e)) ==> e
            == VerificationError::InvalidMerklePath,
{
    if spec_verify_window_structure(window) {
        lemma_window_fold_results(window, map, config, window.slices@.len());
    }
}

/// The check of the `i`-th slice of the window on the shares the map holds for its job.
pub open spec fn window_slice_check(
    window: GetWindowSuccess,
    map: Map<u64, Vec<Share>>,
    config: VerificationConfig,
    i: int,
) -> Option<VerificationResult<SliceVerificationModel>> {
    spec_validate_slice_integrity(
        window.slices@[i],
        shares_for_job(map, window.slices@[i].job_id),
        config,
    )
}

/// The first `i` slices of the window passed their checks without error, and the sum of
/// their valid difficulties fits in a `u64`.
pub open spec fn slices_pass_before(
    window: GetWindowSuccess,
    map: Map<u64, Vec<Share>>,
    config: VerificationConfig,
    i: nat,
) -> bool {
    window_slice_fold(window, map, config, i) matches Some(Ok(_))
}

/// Where the fold over the slices ends in an error, some slice failed with it after every
/// slice before it had passed.
proof fn lemma_window_fold_first_error(
    window: GetWindowSuccess,
    map: Map<u64, Vec<Share>>,
    config: VerificationConfig,
    k: nat,
    e: VerificationError,
)
    requires
        k <= window.slices@.len(),
        window_slice_fold(window, map, config, k) == Some(
            Err::<(Seq<SliceVerificationModel>, u64), _>(e),
        ),
    ensures
        exists|i: int|
            0 <= i < k && #[trigger] slices_pass_before(window, map, config, i as nat)
                && window_slice_check(window, map, config, i) == Some(
                Err::<SliceVerificationModel, _>(e),
            ),
    decreases k,
{
    let prev = window_slice_fold(window, map, config, (k - 1) as nat);
    if prev == Some(Err::<(Seq<SliceVerificationModel>, u64), _>(e)) {
        lemma_window_fold_first_error(window, map, config, (k - 1) as nat, e);
    } else {
        let i = k - 1;
        assert(slices_pass_before(window, map, config, i as nat));
        assert(window_slice_check(window, map, config, i) == Some(
            Err::<SliceVerificationModel, _>(e),
        ));
    }
}

fn pplns_window_core(
    window: &GetWindowSuccess,
    slice_shares_map: &BTreeMap<u64, Vec<Share>>,
    config: &VerificationConfig,
) -> (r: Option<VerificationResult<WindowVerificationResult>>)
    ensures
        match r {
            Some(v) => spec_verify_pplns_window(*window, slice_shares_map@, *config) == Some(
                window_result_view(v),
            ),
            None => spec_verify_pplns_window(*window, slice_shares_map@, *config) is None,
        },
{
    let mut slice_results: Vec<SliceVerificationResult> = Vec::new();
    let mut total_difficulty = 0u64;
    // Basic window structure validation
    let window_size_valid = match verify_window_structure(window) {
        Ok(b) => b,
        Err(e) => {
            return Some(Err(e));
        },
    };
    if !window_size_valid {
        let r = WindowVerificationResult {
            window_valid: false,
            total_difficulty: 0,
            slice_results: Vec::new(),
            phash_consistency: false,
            window_size_valid: false,
        };
        assert(r@.slice_results =~= Seq::<SliceVerificationModel>::empty());
        return Some(Ok(r));
    }
    let n = window.slices.len();
    assert(slice_models(slice_results@) =~= Seq::<SliceVerificationModel>::empty());
    for i in 0..n
        invariant
            n == window.slices@.len(),
            spec_verify_window_structure(*window),
            window_slice_fold(*window, slice_shares_map@, *config, i as nat) == Some(
                Ok::<_, VerificationError>((slice_models(slice_results@), total_difficulty)),
            ),
    {
        let slice = &window.slices[i];
        let empty_shares: Vec<Share> = Vec::new();
        let shares = match shares_of_job(slice_shares_map, slice.job_id) {
            Some(v) => v,
            None => &empty_shares,
        };
        assert(shares@ == shares_for_job(slice_shares_map@, slice.job_id));
        let slice_result = match slice_integrity_core(slice, shares.as_slice(), config) {
            Some(Ok(r)) => r,
            Some(Err(e)) => {
                proof {
                    lemma_window_fold_stops(
                        *window,
                        slice_shares_map@,
                        *config,
                        (i + 1) as nat,
                        n as nat,
                    );
                }
                return Some(Err(e));
            },
            None => {
                proof {
                    lemma_window_fold_stops(
                        *window,
                        slice_shares_map@,
                        *config,
                        (i + 1) as nat,
                        n as nat,
                    );
                }
                return None;
            },
        };
        if slice_result.difficulty_sum_valid {
            match total_difficulty.checked_add(slice.difficulty) {
                Some(t) => {
                    total_difficulty = t;
                },
                None => {
                    proof {
                        lemma_window_fold_stops(
                            *window,
                            slice_shares_map@,
                            *config,
                            (i + 1) as nat,
                            n as nat,
                        );
                    }
                    return None;
                },
            }
        }
        let ghost before = slice_results@;
        slice_results.push(slice_result);
        assert(slice_models(slice_results@) =~= slice_models(before).push(slice_result@));
    }
    let phash_consistency = match verify_phash_consistency(window) {
        Ok(b) => b,
        Err(e) => {
            return Some(Err(e));
        },
    };
    // Overall window validity
    let mut all_slices_valid = true;
    let m = slice_results.len();
    for j in 0..m
        invariant
            m == slice_results@.len(),
            all_slices_valid == (forall|t: int|
                0 <= t < j ==> #[trigger] slice_model_valid(slice_models(slice_results@)[t])),
    {
        let r = &slice_results[j];
        if !(r.total_shares_valid && r.difficulty_sum_valid && r.merkle_tree_valid
            && r.fees_sum_valid) {
            all_slices_valid = false;
        }
        assert(slice_model_valid(slice_models(slice_results@)[j as int]) == (r.total_shares_valid
            && r.difficulty_sum_valid && r.merkle_tree_valid && r.fees_sum_valid));
    }
    let window_valid = all_slices_valid && phash_consistency && window_size_valid;
    Some(
        Ok(
            WindowVerificationResult {
                window_valid,
                total_difficulty,
                slice_results,
                phash_consistency,
                window_size_valid,
            },
        ),
    )
}

/// Verifies PPLNS window consistency with pre-fetched slice data.
pub fn verify_pplns_window(
    window: &GetWindowSuccess,
    slice_shares_map: &BTreeMap<u64, Vec<Share>>,
    config: &VerificationConfig,
) -> (r: VerificationResult<WindowVerificationResult>)
    requires
        spec_verify_pplns_window(*window, slice_shares_map@, *config) is Some,
    ensures
        spec_verify_pplns_window(*window, slice_shares_map@, *config) == Some(
            window_result_view(r),
        ),
{
    match pplns_window_core(window, slice_shares_map, config) {
        Some(r) => r,
        None => {
            proof {
                assert(false);
            }
            Err(VerificationError::CalculationError)
        },
    }
}

/// The result of the comprehensive window check: the PPLNS window check, marked invalid
/// where an expected total difficulty is given and differs from the computed one.
pub open spec fn spec_verify_window_comprehensive(
    window: GetWindowSuccess,
    map: Map<u64, Vec<Share>>,
    config: VerificationConfig,
    expected_total_difficulty: Option<u64>,
) -> Option<VerificationResult<WindowVerificationModel>> {
    match spec_verify_pplns_window(window, map, config) {
        None => None,
        Some(Err(e)) => Some(Err(e)),
        Some(Ok(basic)) => Some(
            Ok(
                match expected_total_difficulty {
                    Some(expected) => if basic.total_difficulty != expected {
                        WindowVerificationModel { window_valid: false, ..basic }
                    } else {
                        basic
                    },
                    None => basic,
                },
            ),
        ),
    }
}

/// The PPLNS window check fails with an error exactly when the window is well formed and,
/// going through its slices in order, the first slice check that does not pass fails with
/// that error (every slice before it having passed, with a difficulty sum that fits).
pub proof fn lemma_window_error_is_first_failing_slice(
    window: GetWindowSuccess,
    map: Map<u64, Vec<Share>>,
    config: VerificationConfig,
    e: VerificationError,
)
    ensures
        (spec_verify_pplns_window(window, map, config) == Some(
            Err::<WindowVerificationModel, _>(e),
        )) <==> (spec_verify_window_structure(window) && exists|i: int|
            0 <= i < window.slices@.len() && #[trigger] slices_pass_before(
                window,
                map,
                config,
                i as nat,
            ) && window_slice_check(window, map, config, i) == Some(
                Err::<SliceVerificationModel, _>(e),
            )),
{
    let n = window.slices@.len();
    if spec_verify_pplns_window(window, map, config) == Some(Err::<WindowVerificationModel, _>(e)) {
        assert(spec_verify_window_structure(window));
        lemma_window_fold_first_error(window, map, config, n, e);
    }
    if spec_verify_window_structure(window) && exists|i: int|
        0 <= i < n && #[trigger] slices_pass_before(window, map, config, i as nat)
            && window_slice_check(window, map, config, i) == Some(
            Err::<SliceVerificationModel, _>(e),
        ) {
        let i = choose|i: int|
            0 <= i < n && #[trigger] slices_pass_before(window, map, config, i as nat)
                && window_slice_check(window, map, config, i) == Some(
                Err::<SliceVerificationModel, _>(e),
            );
        assert(window_slice_fold(window, map, config, (i + 1) as nat) == Some(
            Err::<(Seq<SliceVerificationModel>, u64), _>(e),
        ));
        lemma_window_fold_stops(window, map, config, (i + 1) as nat, n);
    }
}

/// The comprehensive check passes on the PPLNS window check's error, and otherwise
/// gives its result, marked invalid exactly where an expected total difficulty is given
/// and differs from the computed one.
pub proof fn lemma_comprehensive_extends_window_check(
    window: GetWindowSuccess,
    map: Map<u64, Vec<Share>>,
    config: VerificationConfig,
    expected_total_difficulty: Option<u64>,
)
    ensures
        spec_verify_pplns_window(window, map, config) matches Some(Err(e)) ==> spec_verify_window_comprehensive(
            window,
            map,
            config,
            expected_total_difficulty,
        ) == Some(Err::<WindowVerificationModel, _>(e)),
        spec_verify_pplns_window(window, map, config) matches Some(Ok(w)) ==> (
        spec_verify_window_comprehensive(window, map, config, expected_total_difficulty) matches Some(
            Ok(c),
        ) && c.total_difficulty == w.total_difficulty && c.slice_results == w.slice_results
            && c.phash_consistency == w.phash_consistency && c.window_size_valid
            == w.window_size_valid && c.window_valid == (w.window_valid && !(
        expected_total_difficulty matches Some(x) && x != w.total_difficulty))),
{
}

/// Comprehensive window validation with additional checks.
pub fn verify_window_comprehensive(
    window: &GetWindowSuccess,
    slice_shares_map: &BTreeMap<u64, Vec<Share>>,
    config: &VerificationConfig,
    expected_total_difficulty: Option<u64>,
) -> (r: VerificationResult<WindowVerificationResult>)
    requires
        spec_verify_window_comprehensive(
            *window,
            slice_shares_map@,
            *config,
            expected_total_difficulty,
        ) is Some,
    ensures
        spec_verify_window_comprehensive(
            *window,
            slice_shares_map@,
            *config,
            expected_total_difficulty,
        ) == Some(window_result_view(r)),
{
    let basic_result = verify_pplns_window(window, slice_shares_map, config)?;
    // Additional validation if expected difficulty is provided
    if let Some(expected_diff) = expected_total_difficulty {
        if basic_result.total_difficulty != expected_diff {
            return Ok(WindowVerificationResult { window_valid: false, ..basic_result });
        }
    }
    Ok(basic_result)
}

/// A window is reported valid only when its structure is valid, its partial hashes are
/// consistent, and every one of its slices passed all four slice checks; the total
/// difficulty then counts only slices whose difficulty sum is valid, and a window whose
/// total differs from an expected one is reported invalid.
pub proof fn lemma_valid_window_passed_every_check(
    window: GetWindowSuccess,
    map: Map<u64, Vec<Share>>,
    config: VerificationConfig,
    expected_total_difficulty: Option<u64>,
)
    ensures
        spec_verify_window_comprehensive(window, map, config, expected_total_difficulty) matches Some(Ok(m)) ==> (
        m.window_valid ==> {
            &&& m.window_size_valid
            &&& spec_verify_window_structure(window)
            &&& m.phash_consistency
            &&& m.slice_results.len() == window.slices@.len()
            &&& forall|i: int| 0 <= i < m.slice_results.len() ==> #[trigger] slice_model_valid(m.slice_results[i])
            &&& (expected_total_difficulty matches Some(e) ==> m.total_difficulty == e)
        }),
{
    if spec_verify_pplns_window(window, map, config) matches Some(Ok(m)) {
        if spec_verify_window_structure(window) {
            lemma_window_fold_len(window, map, config, window.slices@.len());
        }
    }
}

proof fn lemma_window_fold_len(
    window: GetWindowSuccess,
    map: Map<u64, Vec<Share>>,
    config: VerificationConfig,
    k: nat,
)
    ensures
        window_slice_fold(window, map, config, k) matches Some(Ok((results, _))) ==> results.len() == k,
    decreases k,
{
    if k > 0 {
        lemma_window_fold_len(window, map, config, (k - 1) as nat);
    }
}

/// Comprehensive window validation where that returns; `None` where a share's difficulty
/// is not defined or a sum overflows.
pub fn try_verify_window_comprehensive(
    window: &GetWindowSuccess,
    slice_shares_map: &BTreeMap<u64, Vec<Share>>,
    config: &VerificationConfig,
    expected_total_difficulty: Option<u64>,
) -> (r: Option<VerificationResult<WindowVerificationResult>>)
    ensures
        match r {
            Some(v) => spec_verify_window_comprehensive(
                *window,
                slice_shares_map@,
                *config,
                expected_total_difficulty,
            ) == Some(window_result_view(v)),
            None => spec_verify_window_comprehensive(
                *window,
                slice_shares_map@,
                *config,
                expected_total_difficulty,
            ) is None,
        },
{
    if pplns_window_core(window, slice_shares_map, config).is_some() {
        Some(verify_window_comprehensive(window, slice_shares_map, config, expected_total_difficulty))
    } else {
        None
    }
}

} // verus!
