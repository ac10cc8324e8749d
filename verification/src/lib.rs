//! Hand-off of pushed image frames to an always-on-top, click-through overlay.
//!
//! The network side accepts textual payloads, turns them into [`frame::Frame`]s
//! and queues them on a [`relay::FrameRelay`]; the render side takes them off
//! the relay one per tick and keeps the window's pass-through state current.

pub mod frame;
pub mod network;
pub mod overlay;
pub mod payload;
pub mod registry;
pub mod relay;
