//! Verified core of a DPI probing and desynchronisation engine.

pub mod clock;
pub mod commands;
pub mod desync;
pub mod domain;
pub mod probe;
pub mod rand;
pub mod service;
pub mod text;
