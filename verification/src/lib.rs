//! Verified core of the `/sync` processing of a Matrix client.

pub mod cross_signing;
pub mod dispatch;
pub mod dispatch_laws;
pub mod error;
pub mod key_order;
pub mod response_data;
pub mod room_channels;
pub mod sync;
