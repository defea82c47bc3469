//! Bounds-checked protocol-layer overlays, an IPv4 checksum engine, and a
//! typed key/value map family for programs that run inline on a packet
//! receive path.
//!
//! The packet is modelled as an explicitly bounded byte region
//! ([`xdp::Context`]); every typed view ([`net::Layer`]) is produced only
//! after a bounds check against that region, and every read or write through
//! a view is proved to stay inside it.

pub mod bindings;
pub mod buf;
pub mod csum;
pub mod error;
pub mod maps;
pub mod net;
pub mod xdp;
