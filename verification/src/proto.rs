//! Proto ids of the domain messages the client speaks, and the shared
//! acceptance rule of their replies.  The bodies themselves are opaque to
//! the core; building and reading them happens outside the library.

use vstd::prelude::*;
use crate::session::ConnectionError;

verus! {

pub const PROTO_QOT_SUB: u32 = 3001;

pub const PROTO_QOT_REG_PUSH: u32 = 3002;

pub const PROTO_QOT_GET_SUB_INFO: u32 = 3003;

pub const PROTO_QOT_GET_BASIC_QOT: u32 = 3004;

pub const PROTO_QOT_GET_KL: u32 = 3006;

pub const PROTO_QOT_GET_RT: u32 = 3008;

pub const PROTO_QOT_GET_TICKER: u32 = 3010;

pub const PROTO_QOT_GET_ORDER_BOOK: u32 = 3012;

pub const PROTO_QOT_GET_BROKER: u32 = 3014;

pub const PROTO_QOT_GET_HISTORY_KL: u32 = 3103;

pub const PROTO_QOT_REQUEST_REHAB: u32 = 3105;

pub const PROTO_QOT_GET_SUSPEND: u32 = 3201;

pub const PROTO_QOT_GET_STATIC_INFO: u32 = 3202;

pub const PROTO_QOT_GET_SECURITY_SNAPSHOT: u32 = 3203;

pub const PROTO_QOT_GET_PLATE_SET: u32 = 3204;

pub const PROTO_QOT_GET_PLATE_SECURITY: u32 = 3205;

pub const PROTO_QOT_GET_REFERENCE: u32 = 3206;

pub const PROTO_QOT_GET_OWNER_PLATE: u32 = 3207;

pub const PROTO_QOT_GET_OPTION_CHAIN: u32 = 3209;

pub const PROTO_QOT_GET_WARRANT: u32 = 3210;

pub const PROTO_QOT_GET_CAPITAL_FLOW: u32 = 3211;

pub const PROTO_QOT_GET_CAPITAL_DISTRIBUTION: u32 = 3212;

pub const PROTO_QOT_GET_USER_SECURITY: u32 = 3213;

pub const PROTO_QOT_MODIFY_USER_SECURITY: u32 = 3214;

pub const PROTO_QOT_STOCK_FILTER: u32 = 3215;

pub const PROTO_QOT_GET_CODE_CHANGE: u32 = 3216;

pub const PROTO_QOT_GET_IPO_LIST: u32 = 3217;

pub const PROTO_QOT_GET_FUTURE_INFO: u32 = 3218;

pub const PROTO_QOT_REQUEST_TRADE_DATE: u32 = 3219;

pub const PROTO_QOT_GET_OPTION_EXPIRATION_DATE: u32 = 3224;

pub const PROTO_QOT_UPDATE_BASIC_QOT: u32 = 3005;

pub const PROTO_QOT_UPDATE_KL: u32 = 3007;

pub const PROTO_QOT_UPDATE_TICKER: u32 = 3011;

pub const PROTO_QOT_UPDATE_ORDER_BOOK: u32 = 3013;

pub const PROTO_TRD_GET_ACC_LIST: u32 = 2001;

pub const PROTO_TRD_UNLOCK_TRADE: u32 = 2005;

pub const PROTO_TRD_SUB_ACC_PUSH: u32 = 2008;

pub const PROTO_TRD_GET_FUNDS: u32 = 2101;

pub const PROTO_TRD_GET_POSITION_LIST: u32 = 2102;

pub const PROTO_TRD_GET_MAX_TRD_QTYS: u32 = 2111;

pub const PROTO_TRD_GET_ORDER_LIST: u32 = 2201;

pub const PROTO_TRD_PLACE_ORDER: u32 = 2202;

pub const PROTO_TRD_MODIFY_ORDER: u32 = 2205;

pub const PROTO_TRD_UPDATE_ORDER: u32 = 2208;

pub const PROTO_TRD_GET_ORDER_FILL_LIST: u32 = 2211;

pub const PROTO_TRD_UPDATE_ORDER_FILL: u32 = 2218;

pub const PROTO_TRD_GET_HISTORY_ORDER_LIST: u32 = 2221;

pub const PROTO_TRD_GET_HISTORY_ORDER_FILL_LIST: u32 = 2222;

pub const PROTO_TRD_GET_MARGIN_RATIO: u32 = 2223;

pub const PROTO_TRD_GET_ORDER_FEE: u32 = 2225;

#[derive(Debug)]
pub enum QuoteError {
    Connection(ConnectionError),
    Decode(String),
    Server { ret_type: i32, msg: String },
}

#[derive(Debug)]
pub enum TradeError {
    Connection(ConnectionError),
    Decode(String),
    Server { ret_type: i32, msg: String },
}

/// The acceptance rule every quote reply goes through: a non-zero
/// top-level return code is a server error carrying that code and the
/// reply's message (empty when it has none).
pub fn check_quote_ret(ret_type: i32, ret_msg: Option<String>) -> (r: Result<(), QuoteError>)
    ensures
        ret_type == 0 <==> r is Ok,
        ret_type != 0 ==> (r matches Err(QuoteError::Server { ret_type: rt, msg }) && rt
            == ret_type && msg@ == (match ret_msg {
            Some(m) => m@,
            None => Seq::<char>::empty(),
        })),
{
    if ret_type == 0 {
        Ok(())
    } else {
        let msg = match ret_msg {
            Some(m) => m,
            None => String::new(),
        };
        Err(QuoteError::Server { ret_type, msg })
    }
}

/// The acceptance rule every trade reply goes through; same as for quotes.
pub fn check_trade_ret(ret_type: i32, ret_msg: Option<String>) -> (r: Result<(), TradeError>)
    ensures
        ret_type == 0 <==> r is Ok,
        ret_type != 0 ==> (r matches Err(TradeError::Server { ret_type: rt, msg }) && rt
            == ret_type && msg@ == (match ret_msg {
            Some(m) => m@,
            None => Seq::<char>::empty(),
        })),
{
    if ret_type == 0 {
        Ok(())
    } else {
        let msg = match ret_msg {
            Some(m) => m,
            None => String::new(),
        };
        Err(TradeError::Server { ret_type, msg })
    }
}

} // verus!
