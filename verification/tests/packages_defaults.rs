use tdx::proto::{
    STD_MSG_HISTORY_MINUTETIME_DATA, STD_MSG_HISTORY_TRANSACTION_DATA, STD_MSG_MINUTETIME_DATA,
    STD_MSG_TRANSACTION_DATA, STD_MSG_XDXR_INFO,
};
use tdx::quotes::cmd_finance_info::FinanceInfo;
use tdx::quotes::cmd_minute_time_data::{HistoryMinuteTimePackage, MinuteTime, MinuteTimePackage};
use tdx::quotes::cmd_security_bars::{new_security_bars, SecurityBar};
use tdx::quotes::cmd_transaction_data::{HistoryTransactionPackage, TickTransaction, TransactionPackage};
use tdx::quotes::cmd_xdxr_info::{new_xdxr_info, XdxrInfo, XdxrInfoPackage, XdxrInfoRequest};

#[test]
fn test_finance_info_default() {
    let info = FinanceInfo::default();
    assert_eq!(info.code, "");
    assert_eq!(f32::from_bits(info.liu_tong_gu_ben), 0.0);
    assert_eq!(info.ipo_date, 0);
}

#[test]
fn test_finance_info_is_delisting() {
    let mut info = FinanceInfo::default();
    assert!(info.is_delisting());

    info.ipo_date = 1;
    assert!(!info.is_delisting());

    info.ipo_date = 0;
    info.zong_gu_ben = 1.0f32.to_bits();
    assert!(!info.is_delisting());
}

#[test]
fn test_minute_time_default() {
    let mt = MinuteTime::default();
    assert_eq!(mt.price, 0);
    assert_eq!(mt.vol, 0);
}

#[test]
fn test_minute_time_package_new() {
    let pkg = MinuteTimePackage::new();
    assert_eq!(pkg.req_header.method, STD_MSG_MINUTETIME_DATA);
    assert_eq!(pkg.req_header.zip_flag, 0x0c);
}

#[test]
fn test_history_minute_time_package_new() {
    let pkg = HistoryMinuteTimePackage::new();
    assert_eq!(pkg.req_header.method, STD_MSG_HISTORY_MINUTETIME_DATA);
    assert_eq!(pkg.req_header.zip_flag, 0x0c);
}

#[test]
fn test_security_bar_default() {
    let bar = SecurityBar::default();
    assert_eq!(bar.open, 0);
    assert_eq!(bar.close, 0);
    assert_eq!(bar.high, 0);
    assert_eq!(bar.low, 0);
    assert_eq!(bar.vol, 0);
    assert_eq!(bar.amount, 0);
    assert_eq!(bar.year, 0);
    assert_eq!(bar.month, 0);
    assert_eq!(bar.day, 0);
    assert_eq!(bar.hour, 0);
    assert_eq!(bar.minute, 0);
    assert_eq!(bar.date_time, "");
    assert_eq!(bar.up_count, 0);
    assert_eq!(bar.down_count, 0);
}

#[test]
fn test_security_bars_package_new() {
    let package = new_security_bars().unwrap();
    assert_eq!(package.request.market, 0);
    assert_eq!(package.request.count, 0);
    assert_eq!(package.reply.count, 0);
    assert!(package.reply.list.is_empty());
}

#[test]
fn test_tick_transaction_default() {
    let tt = TickTransaction::default();
    assert_eq!(tt.time, "");
    assert_eq!(tt.price, 0);
    assert_eq!(tt.vol, 0);
    assert_eq!(tt.num, 0);
    assert_eq!(tt.buy_or_sell, 0);
}

#[test]
fn test_transaction_package_new() {
    let pkg = TransactionPackage::new();
    assert_eq!(pkg.req_header.method, STD_MSG_TRANSACTION_DATA);
    assert_eq!(pkg.req_header.zip_flag, 0x0c);
}

#[test]
fn test_history_transaction_package_new() {
    let pkg = HistoryTransactionPackage::new();
    assert_eq!(pkg.req_header.method, STD_MSG_HISTORY_TRANSACTION_DATA);
    assert_eq!(pkg.req_header.zip_flag, 0x0c);
}

#[test]
fn test_xdxr_info_default() {
    let xdxr = XdxrInfo::default();
    assert_eq!(xdxr.date, "");
    assert_eq!(xdxr.category, 0);
    assert_eq!(xdxr.name, "");
    assert_eq!(xdxr.fen_hong, 0);
    assert_eq!(xdxr.pei_gu_jia, 0);
    assert_eq!(xdxr.song_zhuan_gu, 0);
    assert_eq!(xdxr.pei_gu, 0);
    assert_eq!(xdxr.suo_gu, 0);
    assert_eq!(xdxr.qian_liu_tong, 0);
    assert_eq!(xdxr.hou_liu_tong, 0);
    assert_eq!(xdxr.qian_zong_gu_ben, 0);
    assert_eq!(xdxr.hou_zong_gu_ben, 0);
    assert_eq!(xdxr.fen_shu, 0);
    assert_eq!(xdxr.xing_quan_jia, 0);
}

#[test]
fn test_xdxr_info_is_capital_change() {
    let mut xdxr = XdxrInfo::default();

    xdxr.category = 1;
    assert!(!xdxr.is_capital_change());

    xdxr.category = 11;
    assert!(!xdxr.is_capital_change());

    // Share counts are raw packed values; any non-zero one decodes to a
    // positive count.
    xdxr.category = 5;
    xdxr.hou_liu_tong = 100;
    xdxr.hou_zong_gu_ben = 200;
    assert!(xdxr.is_capital_change());

    xdxr.hou_liu_tong = 0;
    xdxr.hou_zong_gu_ben = 200;
    assert!(!xdxr.is_capital_change());

    xdxr.hou_liu_tong = 100;
    xdxr.hou_zong_gu_ben = 0;
    assert!(!xdxr.is_capital_change());
}

#[test]
fn test_xdxr_info_package_new() {
    let pkg = XdxrInfoPackage::new();
    assert_eq!(pkg.req_header.method, STD_MSG_XDXR_INFO);
    assert_eq!(pkg.req_header.zip_flag, 0x0c);
    assert_eq!(pkg.req_header.packet_type, 0x01);
    assert_eq!(pkg.req_header.pkg_len1, 0x000b);
    assert_eq!(pkg.req_header.pkg_len2, 0x000b);
    assert!(pkg.reply.is_empty());
}

#[test]
fn test_xdxr_info_package_set_params() {
    let mut pkg = XdxrInfoPackage::new();
    let request = XdxrInfoRequest { market: 1, code: [b'0', b'0', b'0', b'0', b'0', b'1'] };

    pkg.set_params(request.clone());
    assert_eq!(pkg.request.market, request.market);
    assert_eq!(pkg.request.code, request.code);
}

#[test]
fn test_xdxr_info_clone() {
    let xdxr = XdxrInfo {
        date: "2023-01-01".to_string(),
        category: 1,
        name: "除权除息".to_string(),
        fen_hong: 1.5f32.to_bits(),
        pei_gu_jia: 8.0f32.to_bits(),
        song_zhuan_gu: 2.0f32.to_bits(),
        pei_gu: 1.0f32.to_bits(),
        suo_gu: 0,
        qian_liu_tong: 1000000,
        hou_liu_tong: 1100000,
        qian_zong_gu_ben: 2000000,
        hou_zong_gu_ben: 2100000,
        fen_shu: 0,
        xing_quan_jia: 0,
    };

    let cloned = xdxr.clone();
    assert_eq!(xdxr.date, cloned.date);
    assert_eq!(xdxr.category, cloned.category);
    assert_eq!(xdxr.fen_hong, cloned.fen_hong);
    assert_eq!(xdxr.hou_liu_tong, cloned.hou_liu_tong);
}

#[test]
fn test_new_xdxr_info() {
    let result = new_xdxr_info();
    assert!(result.is_ok());
    let pkg = result.unwrap();
    assert_eq!(pkg.req_header.method, STD_MSG_XDXR_INFO);
}

#[test]
fn test_xdxr_info_debug() {
    let xdxr = XdxrInfo {
        date: "2023-01-01".to_string(),
        category: 1,
        name: "除权除息".to_string(),
        fen_hong: 1.5f32.to_bits(),
        ..Default::default()
    };

    let debug_str = format!("{:?}", xdxr);
    assert!(debug_str.contains("XdxrInfo"));
    assert!(debug_str.contains("2023-01-01"));
    assert!(debug_str.contains("除权除息"));
}

#[test]
fn test_xdxr_info_package_debug() {
    let pkg = XdxrInfoPackage::new();
    let debug_str = format!("{:?}", pkg);
    assert!(debug_str.contains("XdxrInfoPackage"));
}

#[test]
fn test_xdxr_info_package_serialize() {
    let mut pkg = XdxrInfoPackage::new();
    let request = XdxrInfoRequest { market: 1, code: [b'0', b'0', b'0', b'0', b'0', b'1'] };
    pkg.set_params(request);

    let data = tdx::quotes::message::Message::serialize(&mut pkg, 1).unwrap();

    assert!(data.len() >= 16);
    assert!(data.len() >= 25);
}

#[test]
fn xdxr_request_bytes() {
    let mut pkg = XdxrInfoPackage::new();
    pkg.set_params(XdxrInfoRequest { market: 1, code: [b'0', b'0', b'0', b'0', b'0', b'1'] });
    let data = tdx::quotes::message::Message::serialize(&mut pkg, 1).unwrap();
    assert_eq!(data.len(), 25);
    assert_eq!((pkg.req_header.pkg_len1, pkg.req_header.pkg_len2), (0x0f, 0x0f));
    assert_eq!(&data[12..], &[0x01, 0x00, 1, b'0', b'0', b'0', b'0', b'0', b'1', 0, 0, 0, 0]);
}
