//! Decision logic of a payment intake service.
//!
//! - `delivery`: the retry policy that carries one payment to the default or
//!   the fallback payment processor, as a state machine the caller drives.
//! - `processor`: the worker's retry settings, the fate of each queued
//!   message, and the queue's layout.
//! - `payload`: decoding and cleaning of raw message payloads.
//! - `summary`: the per-gateway summary of stored payments and its time span.
//! - `gateway`: the two gateways, their stored labels and their URLs.
//! - `settings`: settings derived from the environment.
//! - `replies`: fixed answers of the HTTP server.
//! - `text`: decimal parsing.

pub mod delivery;
pub mod gateway;
pub mod payload;
pub mod processor;
pub mod replies;
pub mod settings;
pub mod summary;
pub mod text;

pub use gateway::Gateway;
pub use processor::PaymentProcessor;
