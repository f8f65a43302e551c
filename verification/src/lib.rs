//! Nearscreen receiver: shows an iPhone screen streamed over the local network.
pub mod autostart;
pub mod bytes;
pub mod config;
pub mod consent;
pub mod decode;
pub mod net;
pub mod pipeline;
pub mod startup;
pub mod text;
pub mod ui;
