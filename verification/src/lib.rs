//! Core of a terminal client for text-based multiplayer servers.
//!
//! The library decodes an untrusted incoming byte stream that interleaves
//! plain text, telnet negotiation commands, and ANSI terminal escape
//! sequences, and maintains a bounded scrollable transcript together with an
//! editable input line and its history.  Every function here is verified:
//! the parsers never desynchronize, the ring buffer never exceeds its
//! capacity, and every scroll index stays clamped to the buffer bounds.

pub mod format;
pub mod parse_state;
pub mod telnet;
pub mod esc_seq;
pub mod ring_buffer;
pub mod search;
pub mod session;
pub mod actions;
