use crate::consts::{
    CHANNEL_BIT_ERROR_MESSAGE, CHANNEL_BIT_GET_SHARES, CHANNEL_BIT_GET_SHARES_SUCCESS,
    CHANNEL_BIT_GET_WINDOW, CHANNEL_BIT_GET_WINDOW_BUSY, CHANNEL_BIT_GET_WINDOW_SUCCESS,
    CHANNEL_BIT_NEW_BLOCK_FOUND, CHANNEL_BIT_NEW_TXS, CHANNEL_BIT_SHARE_OK,
    MESSAGE_TYPE_ERROR_MESSAGE, MESSAGE_TYPE_GET_SHARES, MESSAGE_TYPE_GET_SHARES_SUCCESS,
    MESSAGE_TYPE_GET_WINDOW, MESSAGE_TYPE_GET_WINDOW_BUSY, MESSAGE_TYPE_GET_WINDOW_SUCCESS,
    MESSAGE_TYPE_NEW_BLOCK_FOUND, MESSAGE_TYPE_NEW_TXS, MESSAGE_TYPE_SHARE_OK,
};
use crate::messages::{
    spec_b016m_seq_size, spec_share_seq_size, ErrorMessage, GetShares, GetSharesSuccess,
    GetWindow, GetWindowBusy, GetWindowSuccess, NewBlockFound, NewTxs, ShareOk,
};
use roles_logic_sv2::parsers::{CommonMessageTypes, JobDeclarationTypes, MiningTypes};
use vstd::prelude::*;

verus! {

/// Errors of message parsing and routing.
#[derive(Debug, Clone, Copy, PartialEq, Eq)]
pub enum ParserError {
    /// No message of the protocol has this type.
    UnexpectedMessage(u8),
    /// The message cannot be sent to a mining device.
    UnexpectedPoolMessage,
    /// The payload does not fit in a frame.
    BadPayloadSize,
}

/// A message of the share accounting extension.
#[derive(Clone, Debug)]
pub enum ShareAccountingMessages {
    ShareOk(ShareOk),
    NewBlockFound(NewBlockFound),
    GetWindow(GetWindow),
    GetWindowSuccess(GetWindowSuccess),
    GetWindowBusy(GetWindowBusy),
    GetShares(GetShares),
    GetSharesSuccess(GetSharesSuccess),
    NewTxs(NewTxs),
    ErrorMessage(ErrorMessage),
}

/// The kinds of messages of the share accounting extension.
#[derive(Debug, Clone, Copy, PartialEq, Eq)]
pub enum ShareAccountingMessagesTypes {
    ShareOk,
    NewBlockFound,
    GetWindow,
    GetWindowSuccess,
    GetWindowBusy,
    GetShares,
    GetSharesSuccess,
    NewTxs,
    ErrorMessage,
}

impl ShareAccountingMessagesTypes {
    /// The message type of the kind.
    pub open spec fn spec_message_type(self) -> u8 {
        match self {
            ShareAccountingMessagesTypes::ShareOk => MESSAGE_TYPE_SHARE_OK,
            ShareAccountingMessagesTypes::NewBlockFound => MESSAGE_TYPE_NEW_BLOCK_FOUND,
            ShareAccountingMessagesTypes::GetWindow => MESSAGE_TYPE_GET_WINDOW,
            ShareAccountingMessagesTypes::GetWindowSuccess => MESSAGE_TYPE_GET_WINDOW_SUCCESS,
            ShareAccountingMessagesTypes::GetWindowBusy => MESSAGE_TYPE_GET_WINDOW_BUSY,
            ShareAccountingMessagesTypes::GetShares => MESSAGE_TYPE_GET_SHARES,
            ShareAccountingMessagesTypes::GetSharesSuccess => MESSAGE_TYPE_GET_SHARES_SUCCESS,
            ShareAccountingMessagesTypes::NewTxs => MESSAGE_TYPE_NEW_TXS,
            ShareAccountingMessagesTypes::ErrorMessage => MESSAGE_TYPE_ERROR_MESSAGE,
        }
    }

    /// The message type of the kind (its `u8` representation).
    pub fn message_type(self) -> (t: u8)
        ensures
            t == self.spec_message_type(),
    {
        match self {
            ShareAccountingMessagesTypes::ShareOk => MESSAGE_TYPE_SHARE_OK,
            ShareAccountingMessagesTypes::NewBlockFound => MESSAGE_TYPE_NEW_BLOCK_FOUND,
            ShareAccountingMessagesTypes::GetWindow => MESSAGE_TYPE_GET_WINDOW,
            ShareAccountingMessagesTypes::GetWindowSuccess => MESSAGE_TYPE_GET_WINDOW_SUCCESS,
            ShareAccountingMessagesTypes::GetWindowBusy => MESSAGE_TYPE_GET_WINDOW_BUSY,
            ShareAccountingMessagesTypes::GetShares => MESSAGE_TYPE_GET_SHARES,
            ShareAccountingMessagesTypes::GetSharesSuccess => MESSAGE_TYPE_GET_SHARES_SUCCESS,
            ShareAccountingMessagesTypes::NewTxs => MESSAGE_TYPE_NEW_TXS,
            ShareAccountingMessagesTypes::ErrorMessage => MESSAGE_TYPE_ERROR_MESSAGE,
        }
    }

    /// The kind whose message type is `v`, or `UnexpectedMessage(v)` where there is none.
    pub open spec fn spec_try_from(v: u8) -> Result<ShareAccountingMessagesTypes, ParserError> {
        if v == MESSAGE_TYPE_SHARE_OK {
            Ok(ShareAccountingMessagesTypes::ShareOk)
        } else if v == MESSAGE_TYPE_NEW_BLOCK_FOUND {
            Ok(ShareAccountingMessagesTypes::NewBlockFound)
        } else if v == MESSAGE_TYPE_GET_WINDOW {
            Ok(ShareAccountingMessagesTypes::GetWindow)
        } else if v == MESSAGE_TYPE_GET_WINDOW_SUCCESS {
            Ok(ShareAccountingMessagesTypes::GetWindowSuccess)
        } else if v == MESSAGE_TYPE_GET_WINDOW_BUSY {
            Ok(ShareAccountingMessagesTypes::GetWindowBusy)
        } else if v == MESSAGE_TYPE_GET_SHARES {
            Ok(ShareAccountingMessagesTypes::GetShares)
        } else if v == MESSAGE_TYPE_GET_SHARES_SUCCESS {
            Ok(ShareAccountingMessagesTypes::GetSharesSuccess)
        } else if v == MESSAGE_TYPE_NEW_TXS {
            Ok(ShareAccountingMessagesTypes::NewTxs)
        } else if v == MESSAGE_TYPE_ERROR_MESSAGE {
            Ok(ShareAccountingMessagesTypes::ErrorMessage)
        } else {
            Err(ParserError::UnexpectedMessage(v))
        }
    }

    /// The kind whose message type is `v`.
    pub fn try_from(v: u8) -> (r: Result<ShareAccountingMessagesTypes, ParserError>)
        ensures
            r == ShareAccountingMessagesTypes::spec_try_from(v),
    {
        if v == MESSAGE_TYPE_SHARE_OK {
            Ok(ShareAccountingMessagesTypes::ShareOk)
        } else if v == MESSAGE_TYPE_NEW_BLOCK_FOUND {
            Ok(ShareAccountingMessagesTypes::NewBlockFound)
        } else if v == MESSAGE_TYPE_GET_WINDOW {
            Ok(ShareAccountingMessagesTypes::GetWindow)
        } else if v == MESSAGE_TYPE_GET_WINDOW_SUCCESS {
            Ok(ShareAccountingMessagesTypes::GetWindowSuccess)
        } else if v == MESSAGE_TYPE_GET_WINDOW_BUSY {
            Ok(ShareAccountingMessagesTypes::GetWindowBusy)
        } else if v == MESSAGE_TYPE_GET_SHARES {
            Ok(ShareAccountingMessagesTypes::GetShares)
        } else if v == MESSAGE_TYPE_GET_SHARES_SUCCESS {
            Ok(ShareAccountingMessagesTypes::GetSharesSuccess)
        } else if v == MESSAGE_TYPE_NEW_TXS {
            Ok(ShareAccountingMessagesTypes::NewTxs)
        } else if v == MESSAGE_TYPE_ERROR_MESSAGE {
            Ok(ShareAccountingMessagesTypes::ErrorMessage)
        } else {
            Err(ParserError::UnexpectedMessage(v))
        }
    }
}

impl ShareAccountingMessages {
    /// The kind of the message.
    pub open spec fn kind(&self) -> ShareAccountingMessagesTypes {
        match self {
            ShareAccountingMessages::ShareOk(_) => ShareAccountingMessagesTypes::ShareOk,
            ShareAccountingMessages::NewBlockFound(_) => ShareAccountingMessagesTypes::NewBlockFound,
            ShareAccountingMessages::GetWindow(_) => ShareAccountingMessagesTypes::GetWindow,
            ShareAccountingMessages::GetWindowSuccess(_) => ShareAccountingMessagesTypes::GetWindowSuccess,
            ShareAccountingMessages::GetWindowBusy(_) => ShareAccountingMessagesTypes::GetWindowBusy,
            ShareAccountingMessages::GetShares(_) => ShareAccountingMessagesTypes::GetShares,
            ShareAccountingMessages::GetSharesSuccess(_) => ShareAccountingMessagesTypes::GetSharesSuccess,
            ShareAccountingMessages::NewTxs(_) => ShareAccountingMessagesTypes::NewTxs,
            ShareAccountingMessages::ErrorMessage(_) => ShareAccountingMessagesTypes::ErrorMessage,
        }
    }

    /// The message type of the message.
    pub fn message_type(&self) -> (t: u8)
        ensures
            t == self.kind().spec_message_type(),
    {
        match self {
            ShareAccountingMessages::ShareOk(_) => MESSAGE_TYPE_SHARE_OK,
            ShareAccountingMessages::NewBlockFound(_) => MESSAGE_TYPE_NEW_BLOCK_FOUND,
            ShareAccountingMessages::GetWindow(_) => MESSAGE_TYPE_GET_WINDOW,
            ShareAccountingMessages::GetWindowSuccess(_) => MESSAGE_TYPE_GET_WINDOW_SUCCESS,
            ShareAccountingMessages::GetWindowBusy(_) => MESSAGE_TYPE_GET_WINDOW_BUSY,
            ShareAccountingMessages::GetShares(_) => MESSAGE_TYPE_GET_SHARES,
            ShareAccountingMessages::GetSharesSuccess(_) => MESSAGE_TYPE_GET_SHARES_SUCCESS,
            ShareAccountingMessages::NewTxs(_) => MESSAGE_TYPE_NEW_TXS,
            ShareAccountingMessages::ErrorMessage(_) => MESSAGE_TYPE_ERROR_MESSAGE,
        }
    }

    /// Whether the message is a channel message; none of the extension's messages is.
    pub fn channel_bit(&self) -> (b: bool)
        ensures
            !b,
    {
        match self {
            ShareAccountingMessages::ShareOk(_) => CHANNEL_BIT_SHARE_OK,
            ShareAccountingMessages::NewBlockFound(_) => CHANNEL_BIT_NEW_BLOCK_FOUND,
            ShareAccountingMessages::GetWindow(_) => CHANNEL_BIT_GET_WINDOW,
            ShareAccountingMessages::GetWindowSuccess(_) => CHANNEL_BIT_GET_WINDOW_SUCCESS,
            ShareAccountingMessages::GetWindowBusy(_) => CHANNEL_BIT_GET_WINDOW_BUSY,
            ShareAccountingMessages::GetShares(_) => CHANNEL_BIT_GET_SHARES,
            ShareAccountingMessages::GetSharesSuccess(_) => CHANNEL_BIT_GET_SHARES_SUCCESS,
            ShareAccountingMessages::NewTxs(_) => CHANNEL_BIT_NEW_TXS,
            ShareAccountingMessages::ErrorMessage(_) => CHANNEL_BIT_ERROR_MESSAGE,
        }
    }

    /// The bounds that the wire types put on the message's sequences and byte strings, and
    /// an encoded size that fits in a `usize`.
    pub open spec fn size_defined(&self) -> bool {
        match self {
            ShareAccountingMessages::GetWindowSuccess(m) => m.slices@.len() <= 65535
                && m.phashes@.len() <= 65535,
            ShareAccountingMessages::GetShares(m) => m.shares@.len() <= 65535,
            ShareAccountingMessages::GetSharesSuccess(m) => (forall|i: int|
                0 <= i < m.shares@.len() ==> #[trigger] m.shares@[i].wf()) && 2
                + spec_share_seq_size(m.shares@) <= usize::MAX,
            ShareAccountingMessages::NewTxs(m) => 2 + spec_b016m_seq_size(m.transactions@)
                <= usize::MAX,
            ShareAccountingMessages::ErrorMessage(m) => m.message@.len() <= 255,
            _ => true,
        }
    }

    /// The encoded size of the message.
    pub open spec fn spec_get_size(&self) -> nat {
        match self {
            ShareAccountingMessages::ShareOk(_) => 12,
            ShareAccountingMessages::NewBlockFound(_) => 32,
            ShareAccountingMessages::GetWindow(_) => 32,
            ShareAccountingMessages::GetWindowSuccess(m) => (2 + 60 * m.slices@.len()) + (2 + 36
                * m.phashes@.len()),
            ShareAccountingMessages::GetWindowBusy(_) => 8,
            ShareAccountingMessages::GetShares(m) => 2 + 8 * m.shares@.len(),
            ShareAccountingMessages::GetSharesSuccess(m) => 2 + spec_share_seq_size(m.shares@),
            ShareAccountingMessages::NewTxs(m) => 2 + spec_b016m_seq_size(m.transactions@),
            ShareAccountingMessages::ErrorMessage(m) => 1 + m.message@.len(),
        }
    }

    /// The encoded size of the message.
    pub fn get_size(&self) -> (n: usize)
        requires
            self.size_defined(),
        ensures
            n == self.spec_get_size(),
    {
        match self {
            ShareAccountingMessages::ShareOk(a) => a.get_size(),
            ShareAccountingMessages::NewBlockFound(a) => a.get_size(),
            ShareAccountingMessages::GetWindow(a) => a.get_size(),
            ShareAccountingMessages::GetWindowSuccess(a) => a.get_size(),
            ShareAccountingMessages::GetWindowBusy(a) => a.get_size(),
            ShareAccountingMessages::GetShares(a) => a.get_size(),
            ShareAccountingMessages::GetSharesSuccess(a) => a.get_size(),
            ShareAccountingMessages::NewTxs(a) => a.get_size(),
            ShareAccountingMessages::ErrorMessage(a) => a.get_size(),
        }
    }
}

/// Every kind's message type maps back to the kind, and a message type maps to a kind only
/// where it is that kind's message type.
pub proof fn lemma_message_type_roundtrip(kind: ShareAccountingMessagesTypes, v: u8)
    ensures
        ShareAccountingMessagesTypes::spec_try_from(kind.spec_message_type()) == Ok::<
            _,
            ParserError,
        >(kind),
        ShareAccountingMessagesTypes::spec_try_from(v) matches Ok(k) ==> k.spec_message_type()
            == v,
        ShareAccountingMessagesTypes::spec_try_from(v) matches Err(e) ==> e
            == ParserError::UnexpectedMessage(v),
{
}

/// The message type of any message maps back to the message's kind.
pub proof fn lemma_message_kind_roundtrip(m: ShareAccountingMessages)
    ensures
        ShareAccountingMessagesTypes::spec_try_from(m.kind().spec_message_type()) == Ok::<
            _,
            ParserError,
        >(m.kind()),
{
    lemma_message_type_roundtrip(m.kind(), 0);
}

/// The message types of the extension's messages, as the protocol's table numbers them:
/// `ShareOk` 0x02, `NewBlockFound` 0x03, `GetWindow` 0x04, `GetWindow.Success` 0x05,
/// `GetWindow.Busy` 0x06, `GetShares` 0x07, `GetShares.Success` 0x08, `NewTxs` 0x0F and
/// `ErrorMessage` 0x10. Each of these numbers maps to its kind, every other number is
/// refused, and every message reports its kind's number.
pub proof fn lemma_message_type_table(v: u8, m: ShareAccountingMessages)
    ensures
        ShareAccountingMessagesTypes::ShareOk.spec_message_type() == 0x02,
        ShareAccountingMessagesTypes::NewBlockFound.spec_message_type() == 0x03,
        ShareAccountingMessagesTypes::GetWindow.spec_message_type() == 0x04,
        ShareAccountingMessagesTypes::GetWindowSuccess.spec_message_type() == 0x05,
        ShareAccountingMessagesTypes::GetWindowBusy.spec_message_type() == 0x06,
        ShareAccountingMessagesTypes::GetShares.spec_message_type() == 0x07,
        ShareAccountingMessagesTypes::GetSharesSuccess.spec_message_type() == 0x08,
        ShareAccountingMessagesTypes::NewTxs.spec_message_type() == 0x0F,
        ShareAccountingMessagesTypes::ErrorMessage.spec_message_type() == 0x10,
        ShareAccountingMessagesTypes::spec_try_from(0x02) == Ok::<_, ParserError>(
            ShareAccountingMessagesTypes::ShareOk,
        ),
        ShareAccountingMessagesTypes::spec_try_from(0x03) == Ok::<_, ParserError>(
            ShareAccountingMessagesTypes::NewBlockFound,
        ),
        ShareAccountingMessagesTypes::spec_try_from(0x04) == Ok::<_, ParserError>(
            ShareAccountingMessagesTypes::GetWindow,
        ),
        ShareAccountingMessagesTypes::spec_try_from(0x05) == Ok::<_, ParserError>(
            ShareAccountingMessagesTypes::GetWindowSuccess,
        ),
        ShareAccountingMessagesTypes::spec_try_from(0x06) == Ok::<_, ParserError>(
            ShareAccountingMessagesTypes::GetWindowBusy,
        ),
        ShareAccountingMessagesTypes::spec_try_from(0x07) == Ok::<_, ParserError>(
            ShareAccountingMessagesTypes::GetShares,
        ),
        ShareAccountingMessagesTypes::spec_try_from(0x08) == Ok::<_, ParserError>(
            ShareAccountingMessagesTypes::GetSharesSuccess,
        ),
        ShareAccountingMessagesTypes::spec_try_from(0x0F) == Ok::<_, ParserError>(
            ShareAccountingMessagesTypes::NewTxs,
        ),
        ShareAccountingMessagesTypes::spec_try_from(0x10) == Ok::<_, ParserError>(
            ShareAccountingMessagesTypes::ErrorMessage,
        ),
        !((0x02 <= v <= 0x08) || v == 0x0F || v == 0x10) ==> ShareAccountingMessagesTypes::spec_try_from(v)
            == Err::<ShareAccountingMessagesTypes, _>(ParserError::UnexpectedMessage(v)),
        m.kind().spec_message_type() == match m {
            ShareAccountingMessages::ShareOk(_) => 0x02u8,
            ShareAccountingMessages::NewBlockFound(_) => 0x03u8,
            ShareAccountingMessages::GetWindow(_) => 0x04u8,
            ShareAccountingMessages::GetWindowSuccess(_) => 0x05u8,
            ShareAccountingMessages::GetWindowBusy(_) => 0x06u8,
            ShareAccountingMessages::GetShares(_) => 0x07u8,
            ShareAccountingMessages::GetSharesSuccess(_) => 0x08u8,
            ShareAccountingMessages::NewTxs(_) => 0x0Fu8,
            ShareAccountingMessages::ErrorMessage(_) => 0x10u8,
        },
{
}

// ---------------------------------------------------------------------------------------
// Routing of a message type to its sub-protocol
// ---------------------------------------------------------------------------------------

/// The sub-protocols whose messages a pool with the extension handles.
#[derive(Debug, Clone, Copy, PartialEq, Eq)]
pub enum MessageFamily {
    Common,
    Mining,
    JobDeclaration,
    ShareAccounting,
}

/// Calls `CommonMessageTypes::try_from` of `roles_logic_sv2`. Claimed, as its source shows:
/// it succeeds exactly on the common message types 0x00 to 0x03.
#[verifier::external_body]
fn is_common_message_type(v: u8) -> (b: bool)
    ensures
        b == (v <= 0x03),
{
    CommonMessageTypes::try_from(v).is_ok()
}

/// Calls `MiningTypes::try_from` of `roles_logic_sv2`. Claimed, as its source shows: it
/// succeeds exactly on the mining message types 0x10 to 0x1d and 0x1f to 0x26.
#[verifier::external_body]
fn is_mining_message_type(v: u8) -> (b: bool)
    ensures
        b == ((0x10 <= v <= 0x1d) || (0x1f <= v <= 0x26)),
{
    MiningTypes::try_from(v).is_ok()
}

/// Calls `JobDeclarationTypes::try_from` of `roles_logic_sv2`. Claimed, as its source
/// shows: it succeeds exactly on the job declaration message types 0x50, 0x51, 0x53 to
/// 0x59 and 0x60.
#[verifier::external_body]
fn is_job_declaration_message_type(v: u8) -> (b: bool)
    ensures
        b == (v == 0x50 || v == 0x51 || (0x53 <= v <= 0x59) || v == 0x60),
{
    JobDeclarationTypes::try_from(v).is_ok()
}

/// The sub-protocol of a message type: the one whose types hold it, an error where none
/// does, and `None` where more than one does (there no sub-protocol is chosen).
pub open spec fn spec_pool_message_family(v: u8) -> Option<Result<MessageFamily, ParserError>> {
    let common = v <= 0x03;
    let mining = (0x10 <= v <= 0x1d) || (0x1f <= v <= 0x26);
    let job_declaration = v == 0x50 || v == 0x51 || (0x53 <= v <= 0x59) || v == 0x60;
    let share_accounting = ShareAccountingMessagesTypes::spec_try_from(v) is Ok;
    if common && !mining && !job_declaration && !share_accounting {
        Some(Ok(MessageFamily::Common))
    } else if !common && mining && !job_declaration && !share_accounting {
        Some(Ok(MessageFamily::Mining))
    } else if !common && !mining && job_declaration && !share_accounting {
        Some(Ok(MessageFamily::JobDeclaration))
    } else if !common && !mining && !job_declaration && share_accounting {
        Some(Ok(MessageFamily::ShareAccounting))
    } else if !common && !mining && !job_declaration && !share_accounting {
        Some(Err(ParserError::UnexpectedMessage(v)))
    } else {
        None
    }
}

/// The sub-protocol that handles a message of type `msg_type`, or `None` where more than
/// one sub-protocol claims the type.
pub fn try_pool_message_family(msg_type: u8) -> (r: Option<Result<MessageFamily, ParserError>>)
    ensures
        r == spec_pool_message_family(msg_type),
{
    let is_common = is_common_message_type(msg_type);
    let is_mining = is_mining_message_type(msg_type);
    let is_job_declaration = is_job_declaration_message_type(msg_type);
    let is_share_accounting = ShareAccountingMessagesTypes::try_from(msg_type).is_ok();
    match (is_common, is_mining, is_job_declaration, is_share_accounting) {
        (true, false, false, false) => Some(Ok(MessageFamily::Common)),
        (false, true, false, false) => Some(Ok(MessageFamily::Mining)),
        (false, false, true, false) => Some(Ok(MessageFamily::JobDeclaration)),
        (false, false, false, true) => Some(Ok(MessageFamily::ShareAccounting)),
        (false, false, false, false) => Some(Err(ParserError::UnexpectedMessage(msg_type))),
        _ => None,
    }
}

/// The sub-protocol that handles a message of type `msg_type`.
pub fn pool_message_family(msg_type: u8) -> (r: Result<MessageFamily, ParserError>)
    requires
        spec_pool_message_family(msg_type) is Some,
    ensures
        spec_pool_message_family(msg_type) == Some(r),
{
    match try_pool_message_family(msg_type) {
        Some(r) => r,
        None => {
            proof {
                assert(false);
            }
            Err(ParserError::UnexpectedMessage(msg_type))
        },
    }
}

} // verus!
