//! Share accounting extension of the Stratum V2 mining protocol: the data types that
//! describe a PPLNS window (slices, shares, partial hashes), the extension's messages,
//! the message-type dispatch, and the checks a miner runs to verify the pool's payout.

pub mod consts;
pub mod data_types;
pub mod messages;
pub mod parser;
mod sha256;
pub mod uint256;
pub mod verification;

pub use consts::{
    MESSAGE_TYPE_ACTIVATE,
    MESSAGE_TYPE_ACTIVATE_SUCCESS,
    MESSAGE_TYPE_SHARE_OK,
    MESSAGE_TYPE_NEW_BLOCK_FOUND,
    MESSAGE_TYPE_GET_WINDOW,
    MESSAGE_TYPE_GET_WINDOW_SUCCESS,
    MESSAGE_TYPE_GET_WINDOW_BUSY,
    MESSAGE_TYPE_GET_SHARES,
    MESSAGE_TYPE_GET_SHARES_SUCCESS,
    MESSAGE_TYPE_GET_TRANSACTIONS_IN_JOB,
    MESSAGE_TYPE_GET_TRANSACTIONS_IN_JOB_SUCCESS,
    MESSAGE_TYPE_IDENTIFY_TRANSACTIONS,
    MESSAGE_TYPE_IDENTIFY_TRANSACTIONS_SUCCESS,
    MESSAGE_TYPE_PROVIDE_MISSING_TRANSACTIONS,
    MESSAGE_TYPE_PROVIDE_MISSING_TRANSACTIONS_SUCCESS,
    MESSAGE_TYPE_NEW_TXS,
    MESSAGE_TYPE_ERROR_MESSAGE,
    CHANNEL_BIT_ACTIVATE,
    CHANNEL_BIT_ACTIVATE_SUCCESS,
    CHANNEL_BIT_SHARE_OK,
    CHANNEL_BIT_NEW_BLOCK_FOUND,
    CHANNEL_BIT_GET_WINDOW,
    CHANNEL_BIT_GET_WINDOW_SUCCESS,
    CHANNEL_BIT_GET_WINDOW_BUSY,
    CHANNEL_BIT_GET_SHARES,
    CHANNEL_BIT_GET_SHARES_SUCCESS,
    CHANNEL_BIT_GET_TRANSACTIONS_IN_JOB,
    CHANNEL_BIT_GET_TRANSACTIONS_IN_JOB_SUCCESS,
    CHANNEL_BIT_IDENTIFY_TRANSACTIONS,
    CHANNEL_BIT_IDENTIFY_TRANSACTIONS_SUCCESS,
    CHANNEL_BIT_PROVIDE_MISSING_TRANSACTIONS,
    CHANNEL_BIT_PROVIDE_MISSING_TRANSACTIONS_SUCCESS,
    CHANNEL_BIT_NEW_TXS,
    CHANNEL_BIT_ERROR_MESSAGE,
};
pub use data_types::{
    lemma_hash256_bytes_roundtrip, splice, Hash256, PHash, Share, Slice,
};
pub use messages::{
    Activate, ActivateSuccess, ErrorMessage, GetShares, GetSharesSuccess, GetTransationsInJob,
    GetTransationsInJobSuccess, GetWindow, GetWindowBusy, GetWindowSuccess, IdentifyTransations,
    IdentifyTransationsSuccess, NewBlockFound, NewTxs, ProvideMissinTransactions,
    ProvideMissinTransactionsSuccess, RequestExtensions, RequestExtensionsError,
    RequestExtensionsSuccess, ShareOk,
};
pub use sha256::spec_sha256;
