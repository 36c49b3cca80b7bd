//! The request/response protocol: validated host requests, device replies,
//! and the transports they travel over.

pub mod host;
pub mod slave;

use vstd::prelude::*;
use crate::protocol::slave::{HostErr, NotReady, SlaveResponse};

verus! {

/// The host-facing transport that a request arrived on; a reply is routed
/// back through the same transport.
#[derive(Copy, Clone, PartialEq, Eq, Structural, Debug)]
pub enum ValidHostInterfaces {
    Serial,
    UART,
    SPI,
    Unselected,
}

/// Exchanging a dispatched request for the reply slot that the device
/// completion will fill in.
pub trait Send {
    fn exchange_for_slave_response(&mut self) -> Result<SlaveResponse<NotReady>, &'static str>;
}

/// Routing a finished reply back to the transport that asked for it.
pub trait Respond {
    fn respond_to_host(&self) -> HostErr;
}

} // verus!
