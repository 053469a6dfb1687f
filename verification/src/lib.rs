//! Verified type and signature specialization for the circuit extension of Sierra.
pub mod ids;
pub mod types;
pub mod circuit;
pub mod circuit_info;
pub mod signature;
pub mod registry;
pub mod laws;
pub mod hierarchy;
