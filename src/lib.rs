pub mod config;
pub mod dispatch;
pub mod outcome;
pub mod stats;
pub mod timing;
