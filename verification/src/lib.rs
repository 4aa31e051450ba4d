//! Client-side implementation of a cluster scheduler's event-driven HTTP API.
//!
//! The library covers the verifiable core of such a client: the streaming
//! frame decoder that turns arbitrarily chunked bytes into discrete events,
//! the construction, validation and identity stamping of outbound calls, the
//! ordered dispatch of events to application callbacks, and the capped
//! exponential backoff that drives reconnection. The HTTP transport itself is
//! left to the surrounding application.

pub mod backoff;
pub mod client;
pub mod errors;
pub mod messages;
pub mod recordio;
pub mod router;
pub mod scheduler;
pub mod session;
pub mod util;
pub mod wire;
pub mod wire_call;
pub mod wire_event;

pub use client::SchedulerClient;
pub use errors::{CodecError, TransportError, ValidationError};
pub use messages::{Call, Event};
pub use recordio::RecordIOCodec;
pub use scheduler::{Scheduler, SchedulerConf};
