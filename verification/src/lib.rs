//! Core logic of a networked pixel-doodle device: a 48x48 boolean canvas,
//! a bounded command channel between the network task and the render task,
//! the wire codec for pixel and clear commands, and the protocol engine that
//! turns HTTP requests or WebSocket frames into canvas mutations.

pub mod byteseq;
pub mod canvas;
pub mod channel;
pub mod command;
pub mod engine;
pub mod http;
pub mod json;
pub mod link;
pub mod render;
pub mod session;
pub mod wsproto;

pub use canvas::Canvas;
pub use engine::Connection;
pub use channel::PixelChannel;
pub use command::Command;
