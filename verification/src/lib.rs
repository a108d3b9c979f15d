//! Vendor-neutral inventory of GPU hardware video decode and encode
//! capabilities.
//!
//! The crate holds the rules of a capability scan: the data model of the
//! report, the mapping tables between vendor values and that model, the
//! probes that turn raw driver replies into per-codec lists, the bookkeeping
//! for lazily bound driver libraries and GPU contexts, and the merge of all
//! devices into one ordered report. Talking to the drivers is left to the
//! caller, who feeds the replies in as plain values.
pub mod model;
pub mod aggregate;
pub mod dylib;
pub mod error;
pub mod nvidia;
pub mod scan;
pub mod support;
pub mod vaapi;
