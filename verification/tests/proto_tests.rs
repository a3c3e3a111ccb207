//! Proto-id registry checks, one per domain area.

use futu::proto::PROTO_QOT_GET_KL;
use futu::proto::PROTO_QOT_GET_HISTORY_KL;
use futu::proto::PROTO_QOT_GET_BASIC_QOT;
use futu::proto::PROTO_QOT_GET_STATIC_INFO;
use futu::proto::PROTO_QOT_GET_SECURITY_SNAPSHOT;
use futu::proto::PROTO_QOT_GET_TICKER;
use futu::proto::PROTO_QOT_GET_ORDER_BOOK;
use futu::proto::PROTO_QOT_STOCK_FILTER;
use futu::proto::PROTO_QOT_GET_PLATE_SECURITY;
use futu::proto::PROTO_QOT_SUB;
use futu::proto::PROTO_QOT_REG_PUSH;
use futu::proto::PROTO_QOT_UPDATE_BASIC_QOT;
use futu::proto::PROTO_QOT_UPDATE_TICKER;
use futu::proto::PROTO_QOT_UPDATE_ORDER_BOOK;
use futu::proto::PROTO_QOT_UPDATE_KL;
use futu::proto::PROTO_TRD_GET_ACC_LIST;
use futu::proto::PROTO_TRD_UNLOCK_TRADE;
use futu::proto::PROTO_TRD_PLACE_ORDER;
use futu::proto::PROTO_TRD_MODIFY_ORDER;
use futu::proto::PROTO_TRD_GET_ORDER_LIST;
use futu::proto::PROTO_TRD_GET_ORDER_FILL_LIST;
use futu::proto::PROTO_TRD_GET_POSITION_LIST;
use futu::proto::PROTO_TRD_GET_FUNDS;
use futu::proto::PROTO_TRD_SUB_ACC_PUSH;
use futu::proto::PROTO_TRD_UPDATE_ORDER;
use futu::proto::PROTO_TRD_UPDATE_ORDER_FILL;

#[test]
fn history_test_proto_id_constants() {
    assert_eq!(PROTO_QOT_GET_KL, 3006);
    assert_eq!(PROTO_QOT_GET_HISTORY_KL, 3103);
}

#[test]
fn snapshot_test_proto_id_constants() {
    assert_eq!(PROTO_QOT_GET_BASIC_QOT, 3004);
    assert_eq!(PROTO_QOT_GET_STATIC_INFO, 3202);
    assert_eq!(PROTO_QOT_GET_SECURITY_SNAPSHOT, 3203);
    assert_eq!(PROTO_QOT_GET_TICKER, 3010);
    assert_eq!(PROTO_QOT_GET_ORDER_BOOK, 3012);
}

#[test]
fn test_stock_filter_proto_id() {
    assert_eq!(PROTO_QOT_STOCK_FILTER, 3215);
}

#[test]
fn test_get_plate_security_proto_id() {
    assert_eq!(PROTO_QOT_GET_PLATE_SECURITY, 3205);
}

#[test]
fn subscribe_test_proto_id_constants() {
    assert_eq!(PROTO_QOT_SUB, 3001);
    assert_eq!(PROTO_QOT_REG_PUSH, 3002);
}

#[test]
fn account_test_proto_id_constants() {
    assert_eq!(PROTO_TRD_GET_ACC_LIST, 2001);
    assert_eq!(PROTO_TRD_UNLOCK_TRADE, 2005);
}

#[test]
fn order_test_proto_id_constants() {
    assert_eq!(PROTO_TRD_PLACE_ORDER, 2202);
    assert_eq!(PROTO_TRD_MODIFY_ORDER, 2205);
}

#[test]
fn query_test_proto_id_constants() {
    assert_eq!(PROTO_TRD_GET_ORDER_LIST, 2201);
    assert_eq!(PROTO_TRD_GET_ORDER_FILL_LIST, 2211);
    assert_eq!(PROTO_TRD_GET_POSITION_LIST, 2102);
    assert_eq!(PROTO_TRD_GET_FUNDS, 2101);
}

#[test]
fn push_test_proto_id_constant() {
    assert_eq!(PROTO_TRD_SUB_ACC_PUSH, 2008);
}

#[test]
fn push_decode_test_proto_id_constants() {
    assert_eq!(PROTO_QOT_UPDATE_BASIC_QOT, 3005);
    assert_eq!(PROTO_QOT_UPDATE_TICKER, 3011);
    assert_eq!(PROTO_QOT_UPDATE_ORDER_BOOK, 3013);
    assert_eq!(PROTO_QOT_UPDATE_KL, 3007);
    assert_eq!(PROTO_TRD_UPDATE_ORDER, 2208);
    assert_eq!(PROTO_TRD_UPDATE_ORDER_FILL, 2218);
}

#[test]
fn server_error_carries_code_and_message() {
    let err = futu::proto::check_quote_ret(-1, Some("bad".to_string()));
    match err {
        Err(futu::proto::QuoteError::Server { ret_type, msg }) => {
            assert_eq!(ret_type, -1);
            assert_eq!(msg, "bad");
        }
        _ => panic!("expected a server error"),
    }
    assert!(futu::proto::check_quote_ret(0, None).is_ok());
    let terr = futu::proto::check_trade_ret(7, None);
    match terr {
        Err(futu::proto::TradeError::Server { ret_type, msg }) => {
            assert_eq!(ret_type, 7);
            assert_eq!(msg, "");
        }
        _ => panic!("expected a server error"),
    }
    assert!(futu::proto::check_trade_ret(0, Some("ok".to_string())).is_ok());
}
