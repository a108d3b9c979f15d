//! The VA-API backend: which device nodes to open and what a display's
//! replies say about its codecs.
pub mod caps;
pub mod device;
pub mod display;
pub mod dylib;
pub mod error;
