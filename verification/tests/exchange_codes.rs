use tdx::exchange::classify::{
    assert_block_by_security_code, assert_code, assert_etf_by_market_and_code, assert_index_by_market_and_code,
    assert_index_by_security_code, assert_stock_by_market_and_code, assert_stock_by_security_code,
    correct_security_code, TargetKind,
};
use tdx::exchange::constants::{get_market_flag, MARKET_ID_BEIJING, MARKET_ID_SHANGHAI, MARKET_ID_SHENZHEN};
use tdx::exchange::symbol::{detect_market, get_market, get_market_flag_by_symbol, get_market_id, get_security_code};
use tdx::internal::helpers::default_base_unit;

#[test]
fn market_flags() {
    assert_eq!(get_market_flag(0), "sz");
    assert_eq!(get_market_flag(1), "sh");
    assert_eq!(get_market_flag(2), "bj");
    assert_eq!(get_market_flag(21), "hk");
    assert_eq!(get_market_flag(22), "us");
    assert_eq!(get_market_flag(99), "sh");
}

#[test]
fn detect_market_forms() {
    assert_eq!(detect_market("sh600000"), (1, "sh".to_string(), "600000".to_string()));
    assert_eq!(detect_market("600000.SH"), (1, "sh".to_string(), "600000".to_string()));
    assert_eq!(detect_market("sz.000001"), (0, "sz".to_string(), "000001".to_string()));
    assert_eq!(detect_market("000001"), (0, "sz".to_string(), "000001".to_string()));
    assert_eq!(detect_market("430047"), (2, "bj".to_string(), "430047".to_string()));
    assert_eq!(detect_market("  "), (1, "sh".to_string(), String::new()));
    assert_eq!(get_market("600000"), "sh");
    assert_eq!(get_market_flag_by_symbol("399001"), "sz");
    assert_eq!(get_market_id("BJ430047"), 2);
}

#[test]
fn security_code_and_back() {
    for (market, code) in [(MARKET_ID_SHANGHAI, "600000"), (MARKET_ID_SHENZHEN, "000001"), (MARKET_ID_BEIJING, "830799")] {
        let full = get_security_code(market, code);
        assert_eq!(full, format!("{}{}", get_market_flag(market), code));
        assert_eq!(detect_market(&full), (market, get_market_flag(market).to_string(), code.to_string()));
    }
    assert_eq!(get_security_code(21, "00700x"), "hk00700");
    assert_eq!(get_security_code(22, "AAPL"), "usAAPL");
    assert_eq!(get_security_code(1, " "), "");
}

#[test]
fn classification() {
    assert!(assert_index_by_market_and_code(1, "000001"));
    assert!(assert_index_by_market_and_code(0, "399001"));
    assert!(!assert_index_by_market_and_code(0, "000001"));
    assert!(assert_index_by_security_code("sh000300"));
    assert!(assert_etf_by_market_and_code(1, "510050"));
    assert!(assert_etf_by_market_and_code(0, "159915"));
    assert!(assert_stock_by_market_and_code(1, "600000"));
    assert!(assert_stock_by_security_code("sz300750"));
    assert!(!assert_stock_by_security_code("sz399001"));
    assert_eq!(assert_code("sh880001"), TargetKind::Block);
    assert_eq!(assert_code("sh000001"), TargetKind::Index);
    assert_eq!(assert_code("sz399006"), TargetKind::Index);
    assert_eq!(assert_code("sh510300"), TargetKind::Etf);
    assert_eq!(assert_code("sz159915"), TargetKind::Etf);
    assert_eq!(assert_code("sz000001"), TargetKind::Stock);
}

#[test]
fn block_codes_are_rewritten() {
    let mut code = "880001.SH".to_string();
    assert!(assert_block_by_security_code(&mut code));
    assert_eq!(code, "sh880001");
    let mut other = "600000".to_string();
    assert!(!assert_block_by_security_code(&mut other));
    assert_eq!(other, "600000");
}

#[test]
fn corrected_codes() {
    assert_eq!(correct_security_code("600000.sh"), "sh600000");
    assert_eq!(correct_security_code("000001"), "sz000001");
    assert_eq!(correct_security_code(""), "");
}

#[test]
fn price_units() {
    let fund: Vec<char> = "510050".chars().collect();
    let etf: Vec<char> = "159915".chars().collect();
    let stock: Vec<char> = "600000".chars().collect();
    assert_eq!(default_base_unit(1, &fund), 1000);
    assert_eq!(default_base_unit(0, &etf), 1000);
    assert_eq!(default_base_unit(1, &stock), 100);
}

#[test]
fn corrected_codes_stay_corrected() {
    for code in ["600000.SH", "000001", "bj430047", " sz000001 ", "hk00700", "sh", ""] {
        let once = correct_security_code(code);
        assert_eq!(correct_security_code(&once), once);
    }
    // A code part that starts with '.' loses it on the second pass.
    assert_eq!(correct_security_code("sh..5"), "sh.5");
    assert_eq!(correct_security_code("sh.5"), "sh5");
}

#[test]
fn security_code_comes_back_through_detect_market() {
    for (market, code, flag) in [
        (0, "000001", "sz"),
        (1, "600000", "sh"),
        (2, "430047", "bj"),
        (21, "00700", "hk"),
        (22, "1234", "us"),
        (1, "5", "sh"),
    ] {
        let full = get_security_code(market, code);
        assert_eq!(full, format!("{}{}", flag, code));
        assert_eq!(detect_market(&full), (market, flag.to_string(), code.to_string()));
    }
    assert_eq!(get_security_code(1, "  "), "");
    assert_eq!(get_security_code(99, "000001"), "sh000001");
    assert_eq!(detect_market("sh.600000"), (1, "sh".to_string(), "600000".to_string()));
    assert_eq!(detect_market("000001.SZ"), (0, "sz".to_string(), "000001".to_string()));
    assert_eq!(detect_market("   "), (1, "sh".to_string(), "".to_string()));
}

#[test]
fn index_test_agrees_with_kind() {
    for code in ["sh000001", "000001", "sh880001", "sz399001", "sz000001", "bj899050", "hk00700", ""] {
        let kind = assert_code(code);
        assert_eq!(
            assert_index_by_security_code(code),
            kind == TargetKind::Index || kind == TargetKind::Block,
            "{}",
            code
        );
    }
    assert!(assert_index_by_security_code("sh000001"));
    assert!(!assert_index_by_security_code("000001"));
    assert!(assert_index_by_security_code("sh880001"));
}
