//! Being a receiver: what is announced, and how senders are answered.

pub mod advertiser;
pub mod control;
pub mod protocol;
pub mod tls;
pub mod util;
