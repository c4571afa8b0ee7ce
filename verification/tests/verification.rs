use share_accounting::verification::{
    calculate_share_difficulty, calculate_share_fees, verify_share_indices_unique,
};
use share_accounting::verification::verify_window_structure;
use share_accounting::{GetWindowSuccess, Hash256, PHash, Share, Slice};

fn create_test_share(index: u32, job_id: u64) -> Share {
    // A one-byte length header followed by the data: the data is every byte after the
    // header, 31 zero bytes.
    let extranonce = vec![0u8; 31];
    // A two-byte length header followed by 64 zero bytes.
    let merkle_path = vec![0u8; 64];
    Share {
        nonce: 12345,
        ntime: 1640995200, // Jan 1, 2022
        version: 1,
        extranonce,
        job_id,
        reference_job_id: job_id,
        share_index: index,
        merkle_path,
    }
}

fn create_test_slice(job_id: u64, num_shares: u32) -> Slice {
    let root = Hash256::from([0u8; 32]);
    Slice {
        number_of_shares: num_shares,
        difficulty: 1000,
        fees: 100000,
        root,
        job_id,
    }
}

#[test]
fn test_share_difficulty_calculation() {
    let share = create_test_share(0, 1);
    let result = calculate_share_difficulty(&share);
    assert!(result.is_ok());
    assert!(result.unwrap() > 0);
}

#[test]
fn test_share_fees_calculation() {
    let share = create_test_share(0, 1);
    let result = calculate_share_fees(&share);
    assert!(result.is_ok());
    let fees = result.unwrap();
    assert!(fees >= 100_000 && fees <= 10_000_000);
}

#[test]
fn test_verify_share_indices_unique() {
    let shares = vec![
        create_test_share(0, 1),
        create_test_share(1, 1),
        create_test_share(2, 1),
    ];
    assert!(verify_share_indices_unique(&shares).unwrap());

    let duplicate_shares = vec![
        create_test_share(0, 1),
        create_test_share(0, 1), // Duplicate
    ];
    assert!(!verify_share_indices_unique(&duplicate_shares).unwrap());
}

#[test]
fn test_window_structure_validation() {
    // A window of two well-formed slices with distinct job ids and a partial hash that
    // starts inside the window.
    let window = GetWindowSuccess {
        slices: vec![create_test_slice(1, 3), create_test_slice(2, 3)],
        phashes: vec![PHash { phash: Hash256::from([0u8; 32]), index_start: 1 }],
    };
    assert!(verify_window_structure(&window).unwrap());
}
