use sha2::{Digest, Sha256};
use share_accounting::verification::{
    build_merkle_tree, calculate_share_hash, calculate_share_pow_hash, checked_share_difficulty,
    compute_merkle_root_from_path, difficulty_from_pow_hash, fees_from_parts,
    is_share_difficulty_defined, pow_hash_difficulty_defined, try_validate_slice_integrity,
    try_verify_share_in_slice, try_verify_window_comprehensive, validate_shares_merkle_consistency,
    validate_transaction_data, verify_merkle_path, verify_merkle_path_advanced,
    verify_phash_consistency, verify_share_fees, verify_slice_merkle_tree, VerificationConfig,
    VerificationError,
};
use share_accounting::{GetWindowSuccess, Hash256, PHash, Share, Slice};
use std::collections::BTreeMap;

fn sha(data: &[u8]) -> [u8; 32] {
    Sha256::digest(data).into()
}

fn concat(a: &[u8; 32], b: &[u8; 32]) -> Vec<u8> {
    let mut v = a.to_vec();
    v.extend_from_slice(b);
    v
}

fn share(index: u32, job_id: u64) -> Share {
    Share {
        nonce: 777 + index,
        ntime: 1_650_000_000,
        version: 2,
        extranonce: vec![index as u8; 4],
        job_id,
        reference_job_id: job_id,
        share_index: index,
        merkle_path: Vec::new(),
    }
}

fn leaf_hash(s: &Share) -> [u8; 32] {
    let mut data = Vec::new();
    data.extend_from_slice(&s.nonce.to_le_bytes());
    data.extend_from_slice(&s.ntime.to_le_bytes());
    data.extend_from_slice(&s.version.to_le_bytes());
    data.extend_from_slice(&s.extranonce);
    data.extend_from_slice(&s.job_id.to_le_bytes());
    sha(&data)
}

#[test]
fn share_hash_is_sha256_of_header_fields() {
    let s = share(3, 11);
    assert_eq!(calculate_share_hash(&s).unwrap(), leaf_hash(&s));
}

#[test]
fn share_pow_hash_is_double_sha256_of_block_header() {
    let s = share(1, 5);
    let mut header = Vec::new();
    header.extend_from_slice(&s.version.to_le_bytes());
    header.extend_from_slice(&[0u8; 32]);
    header.extend_from_slice(&leaf_hash(&s));
    header.extend_from_slice(&s.ntime.to_le_bytes());
    header.extend_from_slice(&[0xFF, 0xFF, 0x00, 0x1D]);
    header.extend_from_slice(&s.nonce.to_le_bytes());
    assert_eq!(calculate_share_pow_hash(&s).unwrap(), sha(&sha(&header)));
}

#[test]
fn fees_from_parts_exact_values() {
    // 2000 + 52 + 0 is below the floor
    assert_eq!(fees_from_parts(1, 1_640_995_200, &[0u8; 32]), 100_000);
    // base 1_000_000, time bonus 99, complexity (49_999 % 50_000) / 10 = 4_999
    let mut h = [0u8; 32];
    h[0..8].copy_from_slice(&49_999u64.to_le_bytes());
    assert_eq!(fees_from_parts(999, 9_999, &h), 1_000_000 + 99 + 4_999);
    // complexity bonus wraps at 50_000
    h[0..8].copy_from_slice(&50_005u64.to_le_bytes());
    assert_eq!(fees_from_parts(1_999, 0, &h), 1_000_000);
}

#[test]
fn share_fees_use_extranonce_hash() {
    let s = share(2, 500);
    let expected = fees_from_parts(s.job_id, s.ntime, &sha(&s.extranonce));
    let slice = Slice {
        number_of_shares: 1,
        difficulty: 1,
        fees: expected - 10,
        root: Hash256::from([0u8; 32]),
        job_id: 500,
    };
    assert!(verify_share_fees(&s, &slice, 10).unwrap());
    assert!(!verify_share_fees(&s, &slice, 9).unwrap());
    let rich = Slice { fees: u64::MAX, ..slice };
    assert!(verify_share_fees(&s, &rich, u64::MAX).unwrap());
}

fn target_shifted(bytes_down: usize) -> [u8; 32] {
    let mut h = [0u8; 32];
    h[4 + bytes_down] = 0xFF;
    h[5 + bytes_down] = 0xFF;
    h
}

#[test]
fn difficulty_from_pow_hash_values() {
    assert_eq!(difficulty_from_pow_hash(&[0u8; 32]), u64::MAX);
    assert_eq!(difficulty_from_pow_hash(&target_shifted(0)), 1);
    assert_eq!(difficulty_from_pow_hash(&[0xFFu8; 32]), 1);
    assert_eq!(difficulty_from_pow_hash(&target_shifted(1)), 256);
    assert_eq!(difficulty_from_pow_hash(&target_shifted(7)), 1u64 << 56);
    // just above half the target: quotient 1
    let mut h = target_shifted(0);
    h[4] = 0x80;
    assert_eq!(difficulty_from_pow_hash(&h), 1);
}

#[test]
fn difficulty_defined_only_when_quotient_fits() {
    assert!(pow_hash_difficulty_defined(&[0u8; 32]));
    assert!(pow_hash_difficulty_defined(&[0xFFu8; 32]));
    assert!(pow_hash_difficulty_defined(&target_shifted(7)));
    // quotient 2^64 does not fit
    assert!(!pow_hash_difficulty_defined(&target_shifted(8)));
    let mut tiny = [0u8; 32];
    tiny[31] = 1;
    assert!(!pow_hash_difficulty_defined(&tiny));
}

#[test]
fn share_difficulty_checked_and_positive() {
    let s = share(0, 1);
    assert!(is_share_difficulty_defined(&s));
    let d = checked_share_difficulty(&s).unwrap();
    let pow = calculate_share_pow_hash(&s).unwrap();
    assert_eq!(d, difficulty_from_pow_hash(&pow));
    assert!(d >= 1);
}

#[test]
fn merkle_tree_and_sibling_paths() {
    let a = [1u8; 32];
    let b = [2u8; 32];
    let c = [3u8; 32];
    let l0 = sha(&concat(&a, &b));
    let l1 = sha(&concat(&c, &c));
    let root = sha(&concat(&l0, &l1));
    assert_eq!(build_merkle_tree(&[a, b, c]).unwrap(), root);
    assert_eq!(build_merkle_tree(&[a]).unwrap(), a);
    assert_eq!(build_merkle_tree(&[]), Err(VerificationError::InvalidMerklePath));
    // leaf 2: its own hash as sibling, then the left node of level 1
    let path2 = [c, l0].concat();
    assert_eq!(compute_merkle_root_from_path(&c, &path2, 2, 3).unwrap(), root);
    // leaf 1: sibling to the left, then the right node of level 1
    let path1 = [a, l1].concat();
    assert_eq!(compute_merkle_root_from_path(&b, &path1, 1, 3).unwrap(), root);
    // a trailing partial chunk is ignored
    let mut path1_long = path1.clone();
    path1_long.extend_from_slice(&[9u8; 5]);
    assert_eq!(compute_merkle_root_from_path(&b, &path1_long, 1, 3).unwrap(), root);
    // the path must have the tree's depth
    assert_eq!(
        compute_merkle_root_from_path(&b, &a, 1, 3),
        Err(VerificationError::InvalidMerklePath)
    );
    assert_eq!(compute_merkle_root_from_path(&b, &[], 0, 0).unwrap(), b);
    assert_eq!(compute_merkle_root_from_path(&b, &[], 0, 1).unwrap(), b);
}

fn slice_for(shares: &[Share], root: [u8; 32], job_id: u64) -> Slice {
    Slice {
        number_of_shares: shares.len() as u32,
        difficulty: u64::MAX,
        fees: u64::MAX,
        root: Hash256::from(root),
        job_id,
    }
}

#[test]
fn merkle_path_of_a_share() {
    let s0 = share(0, 7);
    let mut s1 = share(1, 7);
    let h0 = leaf_hash(&s0);
    let h1 = leaf_hash(&s1);
    let root = sha(&concat(&h0, &h1));
    s1.merkle_path = h0.to_vec();
    let slice = slice_for(&[s0.clone(), s1.clone()], root, 7);
    assert!(verify_merkle_path(&s1, &slice).unwrap());
    let wrong = Slice { root: Hash256::from(h0), ..slice };
    assert!(!verify_merkle_path(&s1, &wrong).unwrap());
    assert_eq!(verify_merkle_path(&s0, &slice), Err(VerificationError::InvalidMerklePath));
    assert!(verify_merkle_path_advanced(&s1, &slice, &[0, 1]).unwrap());
    assert!(!verify_merkle_path_advanced(&s1, &slice, &[1, 1]).unwrap());
    let mut outside = s1.clone();
    outside.share_index = 2;
    assert_eq!(
        verify_merkle_path_advanced(&outside, &slice, &[0, 1]),
        Err(VerificationError::ShareIndexOutOfBounds)
    );
}

#[test]
fn slice_merkle_tree_and_index_order() {
    let s0 = share(0, 9);
    let s1 = share(1, 9);
    let root = sha(&concat(&leaf_hash(&s0), &leaf_hash(&s1)));
    let slice = slice_for(&[s0.clone(), s1.clone()], root, 9);
    assert!(verify_slice_merkle_tree(&slice, &[s0.clone(), s1.clone()]).unwrap());
    assert!(!verify_slice_merkle_tree(&slice, &[s1.clone(), s0.clone()]).unwrap());
    assert!(!verify_slice_merkle_tree(&slice, &[s0.clone()]).unwrap());
    let empty = Slice { number_of_shares: 0, ..slice };
    assert!(verify_slice_merkle_tree(&empty, &[]).unwrap());
    // ordered by index before the tree is built
    assert!(validate_shares_merkle_consistency(&[s1.clone(), s0.clone()], &root).unwrap());
    // the order in which the shares are given does not matter
    assert!(validate_shares_merkle_consistency(&[s0.clone(), s1.clone()], &root).unwrap());
    assert!(!validate_shares_merkle_consistency(&[s1.clone(), s0.clone()], &[0u8; 32]).unwrap());
    assert!(!validate_shares_merkle_consistency(&[s1.clone(), s1.clone()], &root).unwrap());
    assert!(!validate_shares_merkle_consistency(&[], &root).unwrap());
    let mut far = s1.clone();
    far.share_index = 5;
    assert!(!validate_shares_merkle_consistency(&[s0, far], &root).unwrap());
}

#[test]
fn transaction_data_checks() {
    let s = share(0, 1);
    assert!(!validate_transaction_data(&s, &[]).unwrap());
    assert!(validate_transaction_data(&s, &[vec![0u8; 32], vec![1u8; 32]]).unwrap());
    assert_eq!(
        validate_transaction_data(&s, &[vec![0u8; 32], vec![1u8; 31]]),
        Err(VerificationError::InvalidTransactionData)
    );
}

#[test]
fn share_in_slice_results() {
    let s = share(0, 3);
    let slice = slice_for(&[s.clone()], leaf_hash(&s), 3);
    let config = VerificationConfig::default();
    let r = try_verify_share_in_slice(&s, &slice, &config).unwrap().unwrap();
    assert_eq!(r.share_index, 0);
    assert!(r.merkle_valid);
    assert!(r.slice_inclusion_valid);
    assert!(r.fees_valid);
    assert!(r.pow_valid);
    let bad_depth = Slice { number_of_shares: 4, ..slice };
    assert_eq!(
        try_verify_share_in_slice(&s, &bad_depth, &config),
        Some(Err(VerificationError::InvalidMerklePath))
    );
}

#[test]
fn slice_integrity_cases() {
    let s = share(0, 3);
    let slice = slice_for(&[s.clone()], leaf_hash(&s), 3);
    let config = VerificationConfig::default();
    let bad = Slice { number_of_shares: 0, difficulty: 5, ..slice };
    assert_eq!(
        try_validate_slice_integrity(&bad, &[s.clone()], &config),
        Some(Err(VerificationError::InvalidJobId))
    );
    let mismatch = try_validate_slice_integrity(&slice, &[], &config).unwrap().unwrap();
    assert!(!mismatch.total_shares_valid);
    assert!(!mismatch.difficulty_sum_valid);
    assert!(!mismatch.merkle_tree_valid);
    assert!(!mismatch.fees_sum_valid);
    assert!(mismatch.share_results.is_empty());
    let ok = try_validate_slice_integrity(&slice, &[s.clone()], &config).unwrap().unwrap();
    assert_eq!(ok.slice_job_id, 3);
    assert!(ok.total_shares_valid);
    assert!(ok.merkle_tree_valid);
    assert!(ok.fees_sum_valid);
    assert_eq!(ok.share_results.len(), 1);
    let strict_tree = VerificationConfig { verify_all_merkle_paths: true, ..config };
    let ok2 = try_validate_slice_integrity(&slice, &[s.clone()], &strict_tree).unwrap().unwrap();
    assert!(ok2.merkle_tree_valid);
    let wrong_root = Slice { root: Hash256::from([0u8; 32]), ..slice };
    let bad_tree = try_validate_slice_integrity(&wrong_root, &[s], &strict_tree).unwrap().unwrap();
    assert!(!bad_tree.merkle_tree_valid);
}

fn window_of(slices: Vec<Slice>) -> GetWindowSuccess {
    GetWindowSuccess { slices, phashes: vec![PHash { phash: Hash256::from([0u8; 32]), index_start: 0 }] }
}

#[test]
fn window_structure_and_phashes() {
    let s = share(0, 3);
    let slice = slice_for(&[s.clone()], leaf_hash(&s), 3);
    assert!(verify_phash_consistency(&window_of(vec![slice])).unwrap());
    let far = GetWindowSuccess {
        slices: vec![slice],
        phashes: vec![PHash { phash: Hash256::from([0u8; 32]), index_start: 1 }],
    };
    assert!(!verify_phash_consistency(&far).unwrap());
    let map: BTreeMap<u64, Vec<Share>> = BTreeMap::new();
    let config = VerificationConfig::default();
    // duplicate job ids: the window is refused before any slice is checked
    let dup = window_of(vec![slice, slice]);
    let r = try_verify_window_comprehensive(&dup, &map, &config, None).unwrap().unwrap();
    assert!(!r.window_valid);
    assert!(!r.window_size_valid);
    assert_eq!(r.total_difficulty, 0);
    assert!(r.slice_results.is_empty());
}

#[test]
fn pplns_window_verification() {
    let s = share(0, 3);
    let mut slice = slice_for(&[s.clone()], leaf_hash(&s), 3);
    slice.difficulty = 1_000;
    let window = window_of(vec![slice]);
    let mut map = BTreeMap::new();
    map.insert(3u64, vec![s.clone()]);
    let config = VerificationConfig { strict_difficulty: false, ..VerificationConfig::default() };
    let r = try_verify_window_comprehensive(&window, &map, &config, None).unwrap().unwrap();
    assert!(r.window_size_valid);
    assert!(r.phash_consistency);
    assert_eq!(r.slice_results.len(), 1);
    assert_eq!(r.total_difficulty, 1_000);
    assert!(r.window_valid);
    let other = try_verify_window_comprehensive(&window, &map, &config, Some(999)).unwrap().unwrap();
    assert!(!other.window_valid);
    assert_eq!(other.total_difficulty, 1_000);
    // no shares for the slice: its share count does not match
    let empty_map = BTreeMap::new();
    let missing = try_verify_window_comprehensive(&window, &empty_map, &config, None).unwrap().unwrap();
    assert!(!missing.window_valid);
    assert!(!missing.slice_results[0].total_shares_valid);
    assert_eq!(missing.total_difficulty, 0);
}

#[test]
fn window_error_comes_from_first_failing_slice() {
    let s = share(0, 3);
    let mut slice = slice_for(&[s.clone()], leaf_hash(&s), 3);
    slice.difficulty = 1_000;
    let mut bad = s.clone();
    bad.merkle_path = vec![0u8; 32];
    let mut map = BTreeMap::new();
    map.insert(3u64, vec![bad]);
    let config = VerificationConfig { strict_difficulty: false, ..VerificationConfig::default() };
    assert_eq!(
        try_verify_window_comprehensive(&window_of(vec![slice]), &map, &config, None),
        Some(Err(VerificationError::InvalidMerklePath))
    );
    // a slice refused by the window's structure never reaches its own check
    let refused = Slice { job_id: 0, ..slice };
    let r = try_verify_window_comprehensive(&window_of(vec![refused]), &map, &config, None)
        .unwrap()
        .unwrap();
    assert!(!r.window_size_valid);
}

#[test]
fn default_config_values() {
    let c = VerificationConfig::default();
    assert_eq!(c.fee_delta, 100_000);
    assert!(c.strict_difficulty);
    assert!(!c.verify_all_merkle_paths);
    assert_eq!(c.min_share_difficulty, 1);
    assert_eq!(c.max_time_variance, 7200);
    assert!(c.verify_pow);
}
