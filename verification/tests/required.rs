use std::time::Duration;

use tdx::quotes::base_consts::{CONN_TIMEOUT, POOL_INITED, POOL_MAX, RECV_TIMEOUT};
use tdx::quotes::cmd_transaction_data::TradeType;
use tdx::quotes::cmd_xdxr_info::{get_xdxr_category_name, XdxrInfoRequest};

#[test]
fn test_conn_pool_constants() {
    assert_eq!(POOL_INITED, 1);
    assert_eq!(POOL_MAX, 10);
    assert_eq!(Duration::from_secs(CONN_TIMEOUT), Duration::from_secs(10));
    assert_eq!(Duration::from_secs(RECV_TIMEOUT), Duration::from_secs(5));
}

#[test]
fn test_trade_type_values() {
    assert_eq!(TradeType::Buy.code(), 0);
    assert_eq!(TradeType::Sell.code(), 1);
    assert_eq!(TradeType::Neutral.code(), 2);
    assert_eq!(TradeType::Unknown.code(), 3);
}

#[test]
fn test_xdxr_category_mapping() {
    assert_eq!(get_xdxr_category_name(1), "除权除息");
    assert_eq!(get_xdxr_category_name(2), "送配股上市");
    assert_eq!(get_xdxr_category_name(3), "非流通股上市");
    assert_eq!(get_xdxr_category_name(4), "未知股本变动");
    assert_eq!(get_xdxr_category_name(5), "股本变化");
    assert_eq!(get_xdxr_category_name(6), "增发新股");
    assert_eq!(get_xdxr_category_name(7), "股份回购");
    assert_eq!(get_xdxr_category_name(8), "增发新股上市");
    assert_eq!(get_xdxr_category_name(9), "转配股上市");
    assert_eq!(get_xdxr_category_name(10), "可转债上市");
    assert_eq!(get_xdxr_category_name(11), "扩缩股");
    assert_eq!(get_xdxr_category_name(12), "非流通股缩股");
    assert_eq!(get_xdxr_category_name(13), "送认购权证");
    assert_eq!(get_xdxr_category_name(14), "送认沽权证");
    assert_eq!(get_xdxr_category_name(99), "未知");
    assert_eq!(get_xdxr_category_name(0), "未知");
}

#[test]
fn test_xdxr_info_request_default() {
    let req = XdxrInfoRequest::default();
    assert_eq!(req.market, 0);
    assert_eq!(req.code, [0u8; 6]);
}
