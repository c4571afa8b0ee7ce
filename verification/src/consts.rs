use vstd::prelude::*;

verus! {

// Message types of the extension's messages (8 bits each).

pub const MESSAGE_TYPE_ACTIVATE: u8 = 0x00;
pub const MESSAGE_TYPE_ACTIVATE_SUCCESS: u8 = 0x01;
pub const MESSAGE_TYPE_SHARE_OK: u8 = 0x02;
pub const MESSAGE_TYPE_NEW_BLOCK_FOUND: u8 = 0x03;
pub const MESSAGE_TYPE_GET_WINDOW: u8 = 0x04;
pub const MESSAGE_TYPE_GET_WINDOW_SUCCESS: u8 = 0x05;
pub const MESSAGE_TYPE_GET_WINDOW_BUSY: u8 = 0x06;
pub const MESSAGE_TYPE_GET_SHARES: u8 = 0x07;
pub const MESSAGE_TYPE_GET_SHARES_SUCCESS: u8 = 0x08;
pub const MESSAGE_TYPE_GET_TRANSACTIONS_IN_JOB: u8 = 0x09;
pub const MESSAGE_TYPE_GET_TRANSACTIONS_IN_JOB_SUCCESS: u8 = 0x0A;
pub const MESSAGE_TYPE_IDENTIFY_TRANSACTIONS: u8 = 0x0B;
pub const MESSAGE_TYPE_IDENTIFY_TRANSACTIONS_SUCCESS: u8 = 0x0C;
pub const MESSAGE_TYPE_PROVIDE_MISSING_TRANSACTIONS: u8 = 0x0D;
pub const MESSAGE_TYPE_PROVIDE_MISSING_TRANSACTIONS_SUCCESS: u8 = 0x0E;
pub const MESSAGE_TYPE_NEW_TXS: u8 = 0x0F;
pub const MESSAGE_TYPE_ERROR_MESSAGE: u8 = 0x10;

// Whether each message is a channel message; none of them is.

pub const CHANNEL_BIT_ACTIVATE: bool = false;
pub const CHANNEL_BIT_ACTIVATE_SUCCESS: bool = false;
pub const CHANNEL_BIT_SHARE_OK: bool = false;
pub const CHANNEL_BIT_NEW_BLOCK_FOUND: bool = false;
pub const CHANNEL_BIT_GET_WINDOW: bool = false;
pub const CHANNEL_BIT_GET_WINDOW_SUCCESS: bool = false;
pub const CHANNEL_BIT_GET_WINDOW_BUSY: bool = false;
pub const CHANNEL_BIT_GET_SHARES: bool = false;
pub const CHANNEL_BIT_GET_SHARES_SUCCESS: bool = false;
pub const CHANNEL_BIT_GET_TRANSACTIONS_IN_JOB: bool = false;
pub const CHANNEL_BIT_GET_TRANSACTIONS_IN_JOB_SUCCESS: bool = false;
pub const CHANNEL_BIT_IDENTIFY_TRANSACTIONS: bool = false;
pub const CHANNEL_BIT_IDENTIFY_TRANSACTIONS_SUCCESS: bool = false;
pub const CHANNEL_BIT_PROVIDE_MISSING_TRANSACTIONS: bool = false;
pub const CHANNEL_BIT_PROVIDE_MISSING_TRANSACTIONS_SUCCESS: bool = false;
pub const CHANNEL_BIT_NEW_TXS: bool = false;
pub const CHANNEL_BIT_ERROR_MESSAGE: bool = false;

} // verus!
