//! Address handling, page rendering, tab state and control framing for the
//! embedded Browser pane.
pub mod text;
pub mod address;
pub mod encoding;
pub mod pages;
pub mod abi;
pub mod wire;
pub mod client;
pub mod runtime;
pub mod browser;
