//! Telemetry logging for an engine control unit reached over a serial link.
//!
//! The crate holds the parts of the logger that carry invariants: the
//! request/response wire protocol ([`command`]) and the steps of one exchange
//! over the link ([`exchange`]), the binary log format ([`logfile`]) and the
//! session state machine that decides what is written and under which
//! identity ([`session`]). Both formats store their numbers big-endian
//! ([`bigendian`]). Reading the link, the clock and the keyboard, and writing
//! files, is left to the program around it.

pub mod bigendian;
pub mod command;
pub mod exchange;
pub mod logfile;
pub mod session;
