//! Building blocks of a status line: "latest value" signal combinators, a
//! client for a local control-socket protocol, and the rules that turn the
//! raw readings into text.

pub mod battery;
pub mod clock;
pub mod flash;
pub mod signal;
pub mod status;
pub mod text;
pub mod wifi;
pub mod wpactrl;
