//! The NVIDIA backend: driver statuses, identifiers, the decode and encode
//! probes, and the bookkeeping of a GPU context.
pub mod caps;
pub mod context;
pub mod device;
pub mod dylib;
pub mod encoder;
pub mod error;
