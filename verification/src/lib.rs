//! The decision core of a Google Workspace command line tool.

pub mod call;
pub mod cli;
pub mod config;
pub mod discovery;
pub mod encoding;
pub mod error;
pub mod executor;
pub mod helpers;
pub mod json;
pub mod order_laws;
pub mod protocol;
pub mod reply_laws;
pub mod routing;
pub mod run_laws;
pub mod session;
pub mod session_laws;
pub mod text;
pub mod tools;
pub mod uploads;
