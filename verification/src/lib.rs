//! Verified core of an input/output/control framework for robots and remotely
//! operated devices.
pub mod error;
pub mod ieee;

pub mod bmp180;
pub mod jpeg_split;
pub mod keyed;
pub mod value;
pub mod server_state;
pub mod state_store;
pub mod subscriptions;
pub mod config;
pub mod transform;
pub mod text;
pub mod mjpeg;
pub mod ws_message;
pub mod camera;
pub mod server_io;
pub mod modules;
pub mod ws_state;
pub mod test_frame;
