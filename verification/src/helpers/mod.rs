//! Commands that do more than call one method.

pub mod gmail;
