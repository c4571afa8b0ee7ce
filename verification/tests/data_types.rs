use share_accounting::{Hash256, PHash, Share, Slice};

fn counting_bytes() -> [u8; 32] {
    let mut b = [0u8; 32];
    for (i, x) in b.iter_mut().enumerate() {
        *x = i as u8 + 1;
    }
    b
}

fn sample_slice() -> Slice {
    Slice {
        number_of_shares: 7,
        difficulty: 0x0102_0304_0506_0708,
        fees: 250_000,
        root: Hash256::from(counting_bytes()),
        job_id: 0x1122_3344_5566_7788,
    }
}

fn small_share() -> Share {
    Share {
        nonce: 0x0A0B_0C0D,
        ntime: 1_700_000_000,
        version: 0x2000_0000,
        extranonce: vec![9, 8, 7],
        job_id: 42,
        reference_job_id: 43,
        share_index: 5,
        merkle_path: vec![1, 2],
    }
}

#[test]
fn hash256_reads_little_endian_words() {
    let bytes = counting_bytes();
    let h = Hash256::from(bytes);
    assert_eq!(h.first, u64::from_le_bytes([1, 2, 3, 4, 5, 6, 7, 8]));
    assert_eq!(h.second, u64::from_le_bytes([9, 10, 11, 12, 13, 14, 15, 16]));
    assert_eq!(h.third, u64::from_le_bytes([17, 18, 19, 20, 21, 22, 23, 24]));
    assert_eq!(h.forth, u64::from_le_bytes([25, 26, 27, 28, 29, 30, 31, 32]));
}

#[test]
fn hash256_bytes_roundtrip() {
    let bytes = counting_bytes();
    let back: [u8; 32] = Hash256::from(bytes).into();
    assert_eq!(back, bytes);
    let h = Hash256 { first: 1, second: u64::MAX, third: 0, forth: 0xDEAD_BEEF };
    assert_eq!(Hash256::from(h.to_bytes()), h);
}

#[test]
fn slice_wire_bytes_decode() {
    let s = sample_slice();
    let field = Slice::seq_into_encodable_field(vec![s]);
    assert_eq!(field.len(), 62);
    assert_eq!(&field[0..2], &[1, 0]);
    assert_eq!(Slice::from_bytes_unchecked(&field[2..62]), s);
    assert_eq!(&field[2..6], &7u32.to_le_bytes());
    assert_eq!(&field[22..54], &counting_bytes());
}

#[test]
fn slice_to_slice_unchecked_round_trips() {
    let s = sample_slice();
    let mut dst = [0xAAu8; 60];
    s.to_slice_unchecked(&mut dst);
    assert_eq!(&dst[0..4], &7u32.to_le_bytes());
    assert_eq!(&dst[4..12], &s.difficulty.to_le_bytes());
    assert_eq!(&dst[12..20], &s.fees.to_le_bytes());
    assert_eq!(&dst[20..52], &counting_bytes());
    assert_eq!(&dst[52..60], &s.job_id.to_le_bytes());
    assert_eq!(Slice::from_bytes_unchecked(&dst), s);
}

#[test]
fn slice_seq_field_counts_and_concatenates() {
    let a = sample_slice();
    let mut b = sample_slice();
    b.job_id = 9;
    let field = Slice::seq_into_encodable_field(vec![a, b]);
    assert_eq!(field.len(), 2 + 120);
    assert_eq!(&field[0..2], &[2, 0]);
    assert_eq!(Slice::from_bytes_unchecked(&field[62..122]), b);
    let empty = Slice::seq_into_encodable_field(vec![]);
    assert_eq!(empty, vec![0, 0]);
}

#[test]
fn phash_decodes_hash_and_index() {
    let mut data = counting_bytes().to_vec();
    data.extend_from_slice(&0x0102_0304u32.to_le_bytes());
    data.extend_from_slice(&[0xFF, 0xFF]);
    let p = PHash::from_bytes_unchecked(&data);
    assert_eq!(p.phash, Hash256::from(counting_bytes()));
    assert_eq!(p.index_start, 0x0102_0304);
    let field = PHash::seq_into_encodable_field(vec![p, p]);
    assert_eq!(field.len(), 2 + 72);
    assert_eq!(&field[0..2], &[2, 0]);
    assert_eq!(PHash::from_bytes_unchecked(&field[38..74]), p);
}

#[test]
fn share_size_and_wire_bytes() {
    let share = small_share();
    assert_eq!(share.get_size(), 35 + 3 + 2);
    let mut dst = [0x55u8; 60];
    share.to_slice_unchecked(&mut dst);
    let mut expected = Vec::new();
    expected.extend_from_slice(&share.nonce.to_le_bytes());
    expected.extend_from_slice(&share.ntime.to_le_bytes());
    expected.extend_from_slice(&share.version.to_le_bytes());
    expected.push(3);
    expected.extend_from_slice(&[9, 8, 7]);
    expected.extend_from_slice(&42u64.to_le_bytes());
    expected.extend_from_slice(&43u64.to_le_bytes());
    expected.extend_from_slice(&5u32.to_le_bytes());
    expected.extend_from_slice(&[2, 0]);
    expected.extend_from_slice(&[1, 2]);
    assert_eq!(&dst[0..40], expected.as_slice());
    assert_eq!(&dst[40..60], &[0x55u8; 20]);
    let field = Share::seq_into_encodable_field(vec![share.clone(), share]);
    assert_eq!(field.len(), 2 + 80);
    assert_eq!(&field[0..2], &[2, 0]);
    assert_eq!(&field[2..42], expected.as_slice());
    assert_eq!(&field[42..82], expected.as_slice());
}

#[test]
fn share_decodes_its_wire_bytes() {
    let share = small_share();
    let mut dst = [0x55u8; 60];
    share.to_slice_unchecked(&mut dst);
    assert!(Share::holds_share(&dst));
    assert_eq!(Share::from_bytes_unchecked(&dst), share);
    let field = Share::seq_into_encodable_field(vec![share.clone()]);
    assert_eq!(Share::from_bytes_unchecked(&field[2..]), share);
    let empty = Share { extranonce: vec![], merkle_path: vec![], ..small_share() };
    let mut dst = [0u8; 60];
    empty.to_slice_unchecked(&mut dst);
    assert_eq!(Share::from_bytes_unchecked(&dst[0..35]), empty);
}

#[test]
fn share_bytes_that_stop_short_hold_no_share() {
    let share = small_share();
    let mut dst = [0u8; 60];
    share.to_slice_unchecked(&mut dst);
    assert!(Share::holds_share(&dst[0..40]));
    assert!(!Share::holds_share(&dst[0..39]));
    assert!(!Share::holds_share(&dst[0..12]));
    // an extranonce length that runs past the end
    let mut long = dst;
    long[12] = 200;
    assert!(!Share::holds_share(&long));
}
