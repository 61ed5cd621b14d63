//! ISO/IEC 7816-3 T=1 block transmission for contact smart cards.
//!
//! The crate drives APDU exchanges over a byte transport that the
//! caller supplies as callbacks: it frames blocks, checks their
//! checksum, acknowledges, chains, answers supervisory requests and
//! retries, without allocating.
//!
//! * [`codec`] defines the block layout and the checksum.
//! * [`atr`] reads the interface bytes of an Answer To Reset.
//! * [`model`] is the mathematical state of the protocol engine and
//!   its transitions; [`laws`] proves what the transitions guarantee.
//! * [`proto`] is the engine itself, [`clock`] its block timer.
//! * [`transmission`] adds the callbacks of a connection interface
//!   and a builder.
pub mod atr;
pub mod clock;
pub mod codec;
pub mod laws;
pub mod model;
pub mod proto;
pub mod transmission;

pub use clock::Clock;
pub use transmission::{Error, Transmission, TransmissionBuilder};
