//! The orchestration core of a Lightning node: a controller that starts and stops the
//! background loops exactly once, a durable queue of events that bridges the channel
//! engine's callbacks to the application's poll loop, a persisted directory of peers that
//! drives reconnection, and the records of payments.
//!
//! Persistence goes through a [`store::BlobStore`]; the channel and wallet engines stay
//! outside and hand their results in as plain values.

use vstd::prelude::*;

pub mod error;
pub mod types;
pub mod keys;
pub mod config;
pub mod codec;
pub mod store;
pub mod event;
pub mod lifecycle;
pub mod peer_store;
pub mod payment;
pub mod connect;
pub mod node;

pub use config::{Builder, Config};
pub use error::Error as NodeError;
pub use event::{Event, EventQueue};
pub use node::Node;
pub use types::{ChannelId, PaymentInfo, PaymentStatus, UserChannelId};

verus! {

} // verus!
