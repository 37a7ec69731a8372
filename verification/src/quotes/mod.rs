pub mod base_consts;
pub mod message;
pub mod cmd_heartbeat;
pub mod cmd_hello1;
pub mod cmd_hello2;
pub mod cmd_security_count;
pub mod cmd_company_info_category;
pub mod cmd_company_info_content;
pub mod cmd_minute_time_data;
pub mod cmd_transaction_data;
pub mod cmd_security_list;
pub mod cmd_finance_info;
pub mod cmd_xdxr_info;
pub mod cmd_security_bars;
pub mod fields;
pub mod code_map;
pub mod cmd_security_quotes;
pub mod cmd_security_quotes_v2;
pub mod server;
pub mod snapshot;
pub mod targets;
pub mod requests;
pub mod policy;
