use tdx::internal::datetime::{get_datetime_now, next_bar_time, DateTimeParts};
use tdx::quotes::base_consts::QuotesError;
use tdx::exchange::limit::market_limit_percent;
use tdx::quotes::policy::{
    after_idle_ping, cache_needs_refresh, heartbeat_after_ping, heartbeat_tick, idle_conn_action,
    next_list_start, ping_interval_nanos, pool_sizes, retry_times, return_action, timeout_nanos,
    HeartbeatAction, IdleAction, ReturnAction,
};
use tdx::quotes::requests::{
    finance_info_request, history_minute_time_request, history_transaction_request, kline_request,
    minute_time_request, security_code_bytes, transaction_request, xdxr_info_request,
};
use tdx::quotes::cmd_security_quotes::check_stock_count;
use tdx::quotes::server::Server;
use tdx::quotes::targets::{get_security_code, sort_targets_by_code, SecurityTarget};

fn at(year: i32, month: u32, day: u32, hour: u32, minute: u32) -> DateTimeParts {
    DateTimeParts { year, month, day, hour, minute, second: 0, nanosecond: 0 }
}

#[test]
fn next_bar_of_minute_categories() {
    let now = at(2030, 1, 1, 0, 0);
    assert_eq!(next_bar_time(0, "2024-03-15 10:00:00", now), Ok((2024, 3, 15, 10, 5)));
    assert_eq!(next_bar_time(0, "2024-03-15 14:58:00", now), Ok((2024, 3, 16, 9, 33)));
    assert_eq!(next_bar_time(3, "2024-12-31 23:30:00", now), Ok((2025, 1, 1, 0, 30)));
    assert_eq!(next_bar_time(7, "2024-03-15 09:30:00", now), Ok((2024, 3, 15, 9, 31)));
}

#[test]
fn next_bar_of_day_categories() {
    let now = at(2024, 3, 20, 12, 0);
    assert_eq!(next_bar_time(9, "2024-03-15 10:00:00", now), Ok((2024, 3, 16, 10, 0)));
    assert_eq!(next_bar_time(4, "2024-03-15 16:00:00", now), Ok((2024, 3, 16, 15, 0)));
    assert_eq!(next_bar_time(5, "2024-03-15 10:00:00", now), Ok((2024, 3, 20, 12, 0)));
    assert_eq!(next_bar_time(11, "2023-02-28 10:00:00", now), Ok((2024, 2, 28, 10, 0)));
    assert_eq!(next_bar_time(12, "2024-03-15 17:20:00", now), Ok((2024, 3, 15, 15, 0)));
}

#[test]
fn next_bar_errors() {
    let now = at(2024, 3, 20, 12, 0);
    assert_eq!(next_bar_time(9, "not a time", now), Err(QuotesError::InvalidDateTime));
    assert_eq!(next_bar_time(9, "2024-02-30 10:00:00", now), Err(QuotesError::InvalidDateTime));
    assert!(get_datetime_now(9, "2024-03-15 10:00:00").is_ok());
    assert_eq!(get_datetime_now(0, "2024-03-15 10:00:00"), Ok((2024, 3, 15, 10, 5)));
}

#[test]
fn code_requests() {
    assert_eq!(security_code_bytes("sh600000"), Ok((1, *b"600000")));
    assert_eq!(security_code_bytes("000001.SZ"), Ok((0, *b"000001")));
    assert_eq!(security_code_bytes("sh6000"), Err(QuotesError::InvalidSecurityCode));
    let k = kline_request("sz000001", 9, 0, 800).unwrap();
    assert_eq!((k.market, k.code, k.category, k.i, k.start, k.count), (0, *b"000001", 9, 0, 0, 800));
    assert_eq!(kline_request("sz000001", 9, 0, 801).err(), Some(QuotesError::CountExceeded));
    assert_eq!(kline_request("zz", 9, 0, 10).err(), Some(QuotesError::InvalidSecurityCode));
    let m = minute_time_request("sh600000", 20240315).unwrap();
    assert_eq!((m.market, m.code, m.date), (1, *b"600000", 20240315));
    let h = history_minute_time_request("bj430047", 20240315).unwrap();
    assert_eq!((h.market, h.code, h.date), (2, *b"430047", 20240315));
    let t = transaction_request("sh600000", 10, 1800).unwrap();
    assert_eq!((t.market, t.start, t.count), (1, 10, 1800));
    assert_eq!(transaction_request("sh600000", 0, 1801).err(), Some(QuotesError::CountExceeded));
    let ht = history_transaction_request("sh600000", 20240102, 0, 5).unwrap();
    assert_eq!((ht.date, ht.market, ht.code), (20240102, 1, *b"600000"));
    let x = xdxr_info_request("600000").unwrap();
    assert_eq!((x.market, x.code), (1, *b"600000"));
}

#[test]
fn pool_and_heartbeat_rules() {
    assert_eq!(pool_sizes(0, Some(8)), Err(QuotesError::NoServers));
    assert_eq!(pool_sizes(3, Some(8)), Ok((3, 3)));
    assert_eq!(pool_sizes(30, Some(8)), Ok((10, 4)));
    assert_eq!(pool_sizes(30, Some(1)), Ok((10, 1)));
    assert_eq!(pool_sizes(30, None), Ok((10, 10)));
    assert_eq!(heartbeat_tick(true, false, true), HeartbeatAction::Stop);
    assert_eq!(heartbeat_tick(false, true, true), HeartbeatAction::Stop);
    assert_eq!(heartbeat_tick(false, false, true), HeartbeatAction::Ping);
    assert_eq!(heartbeat_tick(false, false, false), HeartbeatAction::Wait);
    assert_eq!(heartbeat_after_ping(false), HeartbeatAction::Stop);
    assert_eq!(heartbeat_after_ping(true), HeartbeatAction::Wait);
}

#[test]
fn finance_request_of_codes() {
    let f = finance_info_request("sz000001").unwrap();
    assert_eq!((f.count, f.market, f.code), (1, 0, *b"000001"));
    let g = finance_info_request("600519").unwrap();
    assert_eq!((g.count, g.market, g.code), (1, 1, *b"600519"));
    assert_eq!(finance_info_request("sh60").err(), Some(QuotesError::InvalidSecurityCode));
}

#[test]
fn daily_limits_by_board() {
    assert_eq!(market_limit_percent("bj430047"), 30);
    assert_eq!(market_limit_percent("sz300750"), 20);
    assert_eq!(market_limit_percent("sh688001"), 20);
    assert_eq!(market_limit_percent("sh600000"), 10);
    assert_eq!(market_limit_percent("sz000001"), 10);
}

#[test]
fn client_and_pool_settings() {
    assert_eq!(retry_times(0), 3);
    assert_eq!(retry_times(7), 7);
    assert_eq!(timeout_nanos(0, 5), 5_000_000_000);
    assert_eq!(timeout_nanos(1_500, 5), 1_500);
    assert_eq!(ping_interval_nanos(0), 10_000_000_000);
    assert_eq!(ping_interval_nanos(999_999), 10_000_000_000);
    assert_eq!(ping_interval_nanos(200_000_000), 200_000_000);
    assert_eq!(idle_conn_action(30_000_000_001, true), IdleAction::Discard);
    assert_eq!(idle_conn_action(30_000_000_000, true), IdleAction::Ping);
    assert_eq!(idle_conn_action(1, false), IdleAction::Hand);
    assert_eq!(after_idle_ping(true), IdleAction::Hand);
    assert_eq!(after_idle_ping(false), IdleAction::Discard);
    assert_eq!(return_action(false, 2, 3), ReturnAction::Keep);
    assert_eq!(return_action(false, 3, 3), ReturnAction::Close);
    assert_eq!(return_action(true, 0, 3), ReturnAction::Close);
}

#[test]
fn security_list_paging_and_cache() {
    assert_eq!(next_list_start(0, 1000), Some(1000));
    assert_eq!(next_list_start(1000, 1000), Some(2000));
    assert_eq!(next_list_start(2000, 999), None);
    assert!(cache_needs_refresh(false, None));
    assert!(!cache_needs_refresh(true, None));
    assert!(!cache_needs_refresh(true, Some(86_400_000_000_000)));
    assert!(cache_needs_refresh(true, Some(86_400_000_000_001)));
    assert_eq!(get_security_code(1, "600000"), "sh600000");
    assert_eq!(get_security_code(0, "000001"), "sz000001");
    assert_eq!(get_security_code(2, "430047"), "430047");
}

#[test]
fn server_validity() {
    let mut s = Server::default();
    assert!(!s.is_valid());
    s.host = "127.0.0.1".to_string();
    assert!(!s.is_valid());
    s.port = 7709;
    assert!(s.is_valid());
    assert_eq!(s.addr(), "127.0.0.1:7709");
}

#[test]
fn quotes_request_sizes() {
    assert_eq!(check_stock_count(0), Err(QuotesError::EmptyRequest));
    assert_eq!(check_stock_count(1), Ok(()));
    assert_eq!(check_stock_count(80), Ok(()));
    assert_eq!(check_stock_count(81), Err(QuotesError::TooManyStocks));
}

#[test]
fn cache_targets_sort_by_code() {
    let t = |code: &str, name: &str| SecurityTarget {
        code: code.to_string(),
        vol_unit: 100,
        decimal_point: 2,
        name: name.to_string(),
    };
    let sorted = sort_targets_by_code(vec![t("sz000001", "a"), t("sh600000", "b"), t("sh000001", "c"), t("sz", "d")]);
    let codes: Vec<&str> = sorted.iter().map(|x| x.code.as_str()).collect();
    assert_eq!(codes, vec!["sh000001", "sh600000", "sz", "sz000001"]);
    assert!(sort_targets_by_code(Vec::new()).is_empty());
}

#[test]
fn cache_targets_with_equal_codes_keep_their_order() {
    let t = |code: &str, name: &str| SecurityTarget {
        code: code.to_string(),
        vol_unit: 100,
        decimal_point: 2,
        name: name.to_string(),
    };
    let sorted = sort_targets_by_code(vec![
        t("sz000001", "first"),
        t("sh600000", "b"),
        t("sz000001", "second"),
        t("sh600000", "c"),
        t("sz000001", "third"),
    ]);
    let pairs: Vec<(&str, &str)> = sorted.iter().map(|x| (x.code.as_str(), x.name.as_str())).collect();
    assert_eq!(
        pairs,
        vec![
            ("sh600000", "b"),
            ("sh600000", "c"),
            ("sz000001", "first"),
            ("sz000001", "second"),
            ("sz000001", "third"),
        ]
    );
}

#[test]
fn next_bar_compares_with_now_by_timestamp() {
    let lasttime = "2024-03-15 10:00:00";
    assert_eq!(next_bar_time(9, lasttime, at(2024, 3, 16, 10, 0)), Ok((2024, 3, 16, 10, 0)));
    assert_eq!(next_bar_time(9, lasttime, at(2024, 3, 16, 9, 59)), Ok((2024, 3, 16, 9, 59)));
    assert_eq!(next_bar_time(4, "2023-12-31 10:00:00", at(2023, 12, 31, 23, 0)), Ok((2023, 12, 31, 15, 0)));
    assert_eq!(next_bar_time(4, "2024-02-28 10:00:00", at(2024, 2, 29, 9, 0)), Ok((2024, 2, 29, 9, 0)));
    // A current time that names no date is never earlier.
    assert_eq!(next_bar_time(9, lasttime, at(2024, 2, 30, 0, 0)), Ok((2024, 3, 16, 10, 0)));
}
