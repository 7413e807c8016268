//! Commands for mail.

pub mod send;
