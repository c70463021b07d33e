//! Wire protocol: packet layout, verification and the fountain-code interface.
pub mod coding;
pub mod key_ring;
pub mod packets;
pub mod wire;
