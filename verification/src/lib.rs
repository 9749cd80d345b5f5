//! A fixed-length boxed sequence whose handle is one machine word wide.
//!
//! `block` says where the length header and the elements of such a sequence
//! sit inside one block of memory; `thin` is the sequence itself.

pub mod block;
pub mod thin;

pub use thin::ThinBoxedSlice;
