use share_accounting::parser::{
    pool_message_family, try_pool_message_family, MessageFamily, ParserError, ShareAccountingMessages,
    ShareAccountingMessagesTypes,
};
use share_accounting::{
    ErrorMessage, GetShares, GetWindow, GetWindowBusy, GetWindowSuccess, Hash256, NewTxs, PHash,
    ShareOk, Slice, MESSAGE_TYPE_ERROR_MESSAGE, MESSAGE_TYPE_GET_WINDOW, MESSAGE_TYPE_SHARE_OK,
};

#[test]
fn message_types_map_to_kinds() {
    assert_eq!(
        ShareAccountingMessagesTypes::try_from(MESSAGE_TYPE_SHARE_OK),
        Ok(ShareAccountingMessagesTypes::ShareOk)
    );
    assert_eq!(
        ShareAccountingMessagesTypes::try_from(0x04),
        Ok(ShareAccountingMessagesTypes::GetWindow)
    );
    assert_eq!(
        ShareAccountingMessagesTypes::try_from(0x10),
        Ok(ShareAccountingMessagesTypes::ErrorMessage)
    );
    assert_eq!(
        ShareAccountingMessagesTypes::try_from(0x01),
        Err(ParserError::UnexpectedMessage(0x01))
    );
    assert_eq!(
        ShareAccountingMessagesTypes::try_from(0xAB),
        Err(ParserError::UnexpectedMessage(0xAB))
    );
}

#[test]
fn message_type_roundtrip_for_every_kind() {
    let kinds = [
        ShareAccountingMessagesTypes::ShareOk,
        ShareAccountingMessagesTypes::NewBlockFound,
        ShareAccountingMessagesTypes::GetWindow,
        ShareAccountingMessagesTypes::GetWindowSuccess,
        ShareAccountingMessagesTypes::GetWindowBusy,
        ShareAccountingMessagesTypes::GetShares,
        ShareAccountingMessagesTypes::GetSharesSuccess,
        ShareAccountingMessagesTypes::NewTxs,
        ShareAccountingMessagesTypes::ErrorMessage,
    ];
    for k in kinds {
        assert_eq!(ShareAccountingMessagesTypes::try_from(k.message_type()), Ok(k));
    }
}

#[test]
fn messages_report_type_bit_and_size() {
    let ok = ShareAccountingMessages::ShareOk(ShareOk { job_id: 1, share_index: 2 });
    assert_eq!(ok.message_type(), MESSAGE_TYPE_SHARE_OK);
    assert!(!ok.channel_bit());
    assert_eq!(ok.get_size(), 12);
    let gw = ShareAccountingMessages::GetWindow(GetWindow { block_hash: [0u8; 32] });
    assert_eq!(gw.message_type(), MESSAGE_TYPE_GET_WINDOW);
    assert_eq!(gw.get_size(), 32);
    let slice = Slice {
        number_of_shares: 1,
        difficulty: 1,
        fees: 1,
        root: Hash256::from([0u8; 32]),
        job_id: 1,
    };
    let success = ShareAccountingMessages::GetWindowSuccess(GetWindowSuccess {
        slices: vec![slice, slice],
        phashes: vec![PHash { phash: Hash256::from([0u8; 32]), index_start: 0 }],
    });
    assert_eq!(success.get_size(), 2 + 120 + 2 + 36);
    let busy = ShareAccountingMessages::GetWindowBusy(GetWindowBusy { retry_in_seconds: 5 });
    assert_eq!(busy.get_size(), 8);
    let shares = ShareAccountingMessages::GetShares(GetShares { shares: vec![1, 2, 3] });
    assert_eq!(shares.get_size(), 2 + 24);
    let txs = ShareAccountingMessages::NewTxs(NewTxs { transactions: vec![vec![1, 2], vec![]] });
    assert_eq!(txs.get_size(), 2 + 5 + 3);
    let err = ShareAccountingMessages::ErrorMessage(ErrorMessage { message: b"busy".to_vec() });
    assert_eq!(err.message_type(), MESSAGE_TYPE_ERROR_MESSAGE);
    assert_eq!(err.get_size(), 5);
}

#[test]
fn pool_message_families() {
    assert_eq!(pool_message_family(0x00), Ok(MessageFamily::Common));
    assert_eq!(pool_message_family(0x01), Ok(MessageFamily::Common));
    assert_eq!(pool_message_family(0x15), Ok(MessageFamily::Mining));
    assert_eq!(pool_message_family(0x26), Ok(MessageFamily::Mining));
    assert_eq!(pool_message_family(0x50), Ok(MessageFamily::JobDeclaration));
    assert_eq!(pool_message_family(0x60), Ok(MessageFamily::JobDeclaration));
    assert_eq!(pool_message_family(0x04), Ok(MessageFamily::ShareAccounting));
    assert_eq!(pool_message_family(0x0F), Ok(MessageFamily::ShareAccounting));
    assert_eq!(pool_message_family(0x1E), Err(ParserError::UnexpectedMessage(0x1E)));
    assert_eq!(pool_message_family(0x52), Err(ParserError::UnexpectedMessage(0x52)));
    assert_eq!(pool_message_family(0x99), Err(ParserError::UnexpectedMessage(0x99)));
}

#[test]
fn ambiguous_message_types_get_no_family() {
    // 0x02 and 0x03 are common message types and share accounting ones too, and 0x10 is
    // both a mining type and the extension's error message.
    assert_eq!(try_pool_message_family(0x02), None);
    assert_eq!(try_pool_message_family(0x03), None);
    assert_eq!(try_pool_message_family(0x10), None);
    assert_eq!(try_pool_message_family(0x00), Some(Ok(MessageFamily::Common)));
    assert_eq!(try_pool_message_family(0x05), Some(Ok(MessageFamily::ShareAccounting)));
    assert_eq!(try_pool_message_family(0x1E), Some(Err(ParserError::UnexpectedMessage(0x1E))));
}
