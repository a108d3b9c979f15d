//! What a GPU decodes and encodes, from the driver's replies.
pub mod decode;
pub mod encode;
