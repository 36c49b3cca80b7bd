//! Request/response protocol engine for an SMI/MDIO bridge.
//!
//! The library models the core of a bridge that accepts commands from several
//! host transports (serial console, SPI, UART), validates them into
//! interface-specific requests, dispatches each request to a single
//! device-facing SMI channel, and routes the device's reply back to the
//! transport that originated the request.  Hardware access itself stays
//! outside: the library computes what to send and decides when, and its
//! caller performs the actual peripheral I/O.

pub mod codec;
pub mod console;
pub mod counter;
pub mod engine;
pub mod protocol;
pub mod queue;
