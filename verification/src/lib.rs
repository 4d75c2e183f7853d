//! Motion-server core for the Steam Controller family: the DSU (cemuhook)
//! wire protocol, the controller's HID report layout, the axis mapping and
//! live configuration, and the decision logic around them.

pub mod bytes;
pub mod dsu;
pub mod server;
pub mod config;
pub mod triton;
pub mod cli;
