//! Verified core of the Firefly Zero runtime: frame buffer, images, colors,
//! scoreboards, netcode bookkeeping and the other decisions that the runtime
//! makes between calls into the wasm guest and the device.

pub mod battery;
pub mod canvas;
pub mod color;
pub mod config;
pub mod connection;
pub mod connector;
pub mod device;
pub mod error;
pub mod files;
pub mod frame_buffer;
pub mod friends;
pub mod graphics;
pub mod image;
pub mod input;
pub mod linking;
pub mod menu;
pub mod misc;
pub mod net;
pub mod pacing;
pub mod placement;
pub mod png;
pub mod qr;
pub mod ring;
pub mod runtime;
pub mod scene;
pub mod scores;
pub mod stash;
pub mod state;
pub mod stats;
pub mod sudo;
pub mod validators;
pub mod wasi;

pub use ring::RingBuf;
pub use validators::valid_full_id;
