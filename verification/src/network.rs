//! Network layer: protocol types and messages, and synchronisation.

pub mod protocol;
pub mod sync;
