//! Encoding-specific string operations.

pub mod binascii;
pub mod utf8;
