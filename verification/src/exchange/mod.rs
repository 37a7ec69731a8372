pub mod constants;
pub mod symbol;
pub mod classify;
pub mod limit;
