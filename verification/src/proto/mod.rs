//! The tunnel protocol: messages and their framing.
pub mod buf;
pub mod message;
pub mod frame;
