//! Screen capture on Wayland through the desktop portal and PipeWire.
pub mod cache;
pub mod capturable;
pub mod cursor;
pub mod display;
pub mod errors;
pub mod filling;
pub mod monitors;
pub mod outside;
pub mod portal;
pub mod positions;
pub mod recorder;
pub mod search;
pub mod server;
pub mod session;
pub mod sorting;
pub mod stream;
pub mod text;
pub mod tokens;
