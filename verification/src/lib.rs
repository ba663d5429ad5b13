//! Response-rewriting stages for an intercepting proxy pipeline.
//!
//! A stage watches the requests that travel toward a backend, lets them pass
//! unchanged, and rewrites selected parts of the responses on their way back:
//!
//! * [`record`] and [`codec`] model the records of a Kafka record batch and
//!   turn batches into records and back, through the `kafka-protocol` crate;
//! * [`framing`] tells which buffers can be handed to that crate's decoder;
//! * [`fetch`] walks a fetch response and replaces every present record value;
//! * [`resp`] models RESP frames and recognises `GET` commands among them;
//! * [`get_rewrite`] notes which requests are `GET` commands and replaces
//!   the responses that answer them;
//! * [`message`] is the proxy's view of one request or response;
//! * [`kafka_fetch_rewrite`], [`redis_get_rewrite`] and [`valkey_get_rewrite`]
//!   are the configurable stages built from these parts.
pub mod record;
pub mod framing;
pub mod codec;
pub mod fetch;
pub mod resp;
pub mod message;
pub mod kafka_fetch_rewrite;
pub mod get_rewrite;
pub mod redis_get_rewrite;
pub mod valkey_get_rewrite;
