//! Capture-to-encode pipeline core: timestamps, pixel layouts, the frame
//! hand-off queue and the encoder session state machine.

pub mod adapter;
pub mod channel;
pub mod encoder;
pub mod error;
pub mod frame;
pub mod output;
pub mod pipeline;
pub mod session;
pub mod settings;
pub mod time;
