//! FGGB, the Frida GameGuardian bridge: the rules behind the resident controller.

pub mod engine;
pub mod error;
pub mod gg;
pub mod http;
pub mod json;
pub mod text;
pub mod watchdog;
