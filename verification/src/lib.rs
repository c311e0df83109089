//! A sans-I/O engine for VSCP bureaus: the wire codec, the per-user packet
//! parser, aura bookkeeping and fan-out, the handshake staging queue, and the
//! world-locator dispatcher.
//!
//! Nothing here touches a socket or a clock. Callers hand in what they read
//! and the current time, and carry out what the engine queues for sending.

pub mod math;
pub mod protocol;

pub mod text;
pub mod packets;
pub mod user;
pub mod user_map;
pub mod user_list;
pub mod listener;
pub mod bureau;
pub mod bureau_manager;
pub mod wls;
