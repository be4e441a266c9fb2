//! Platform-specific parts: one module per family of systems.

pub mod unix;
pub mod windows;
