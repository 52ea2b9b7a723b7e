//! Operations on conventionally UTF-8 byte strings.

pub mod case_change;
pub mod decode;
