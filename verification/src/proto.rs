//! Method codes and flags of the standard quotes protocol.
use vstd::prelude::*;

verus! {

/// The request body is sent uncompressed.
pub const FLAG_NOT_ZIPPED: u8 = 0x0c;

pub const STD_MSG_HEARTBEAT: u16 = 0x0004;
pub const STD_MSG_LOGIN1: u16 = 0x000d;
pub const STD_MSG_LOGIN2: u16 = 0x0fdb;
pub const STD_MSG_XDXR_INFO: u16 = 0x000f;
pub const STD_MSG_FINANCE_INFO: u16 = 0x0010;
pub const STD_MSG_COMPANY_CATEGORY: u16 = 0x02cf;
pub const STD_MSG_COMPANY_CONTENT: u16 = 0x02d0;
pub const STD_MSG_SECURITY_COUNT: u16 = 0x044e;
pub const STD_MSG_SECURITY_LIST: u16 = 0x0450;
pub const STD_MSG_MINUTETIME_DATA: u16 = 0x051d;
pub const STD_MSG_SECURITY_BARS: u16 = 0x052d;
pub const STD_MSG_INDEXBARS: u16 = 0x052d;
pub const STD_MSG_SECURITY_QUOTES_OLD: u16 = 0x053e;
pub const STD_MSG_SECURITY_QUOTES_NEW: u16 = 0x054c;
pub const STD_MSG_HISTORY_MINUTETIME_DATA: u16 = 0x0fb4;
pub const STD_MSG_HISTORY_TRANSACTION_DATA: u16 = 0x0fb5;
pub const STD_MSG_TRANSACTION_DATA: u16 = 0x0fc5;

} // verus!
