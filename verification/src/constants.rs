//! Header and method names.
pub mod header;
pub mod method;
