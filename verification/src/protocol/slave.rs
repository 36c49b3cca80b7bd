//! Device replies, tagged with whether the hardware has answered yet.
//!
//! A reply slot is created `NotReady` at the moment a request is dispatched,
//! recording where the answer must go.  Only the device-completion event
//! fills the payload and promotes it to `Ready`, so a payload can never be
//! read before the hardware has produced it.

use vstd::prelude::*;
use crate::protocol::{Respond, ValidHostInterfaces};

verus! {

/// Compile-time tag for the readiness of a reply.
pub trait State {

}

/// The response is ready to go back to the host.
#[derive(Debug)]
pub struct Ready {
    __private: (),
}

/// The response still awaits the device's answer.
#[derive(Debug)]
pub struct NotReady {
    __private: (),
}

impl State for NotReady {

}

impl State for Ready {

}

/// The in-flight reply, tagged with its readiness state.
#[derive(Debug)]
pub struct SlaveResponse<S: State> {
    pub state: S,
    pub proc_id: u8,
    pub host_config: ValidHostInterfaces,
    pub size: u8,
    pub payload: u32,
}

/// How routing a reply went.
#[derive(Copy, Clone, PartialEq, Eq, Structural, Debug)]
pub enum HostErr {
    Timeout,
    NoErr,
}

/// Whether two replies, whatever their readiness states, carry the same
/// fields.
pub open spec fn same_response_fields<A: State, B: State>(
    a: SlaveResponse<A>,
    b: SlaveResponse<B>,
) -> bool {
    &&& a.proc_id == b.proc_id
    &&& a.host_config == b.host_config
    &&& a.size == b.size
    &&& a.payload == b.payload
}

impl<S: State> SlaveResponse<S> {
    /// Re-tags the reply without touching its fields.
    fn transition<To: State>(self, marker: To) -> (r: Result<SlaveResponse<To>, &'static str>)
        ensures
            r is Ok,
            same_response_fields(self, r->Ok_0),
    {
        Ok(
            SlaveResponse {
                state: marker,
                proc_id: self.proc_id,
                host_config: self.host_config,
                size: self.size,
                payload: self.payload,
            },
        )
    }
}

impl Respond for SlaveResponse<Ready> {
    fn respond_to_host(&self) -> (r: HostErr)
        ensures
            r == (if self.host_config is Unselected {
                HostErr::Timeout
            } else {
                HostErr::NoErr
            }),
    {
        match self.host_config {
            ValidHostInterfaces::Serial => HostErr::NoErr,
            ValidHostInterfaces::UART => HostErr::NoErr,
            ValidHostInterfaces::SPI => HostErr::NoErr,
            _ => HostErr::Timeout,
        }
    }
}

impl SlaveResponse<Ready> {
    /// The reply frame written back over SPI: byte 0 is the correlation id,
    /// bytes 1-4 the big-endian split of the payload word, the rest of the
    /// transmit buffer zero.
    pub fn spi_reply_frame(&self) -> (r: [u8; 18])
        ensures
            r@[0] == self.proc_id,
            r@[1] == ((self.payload >> 24) & 0xff) as u8,
            r@[2] == ((self.payload >> 16) & 0xff) as u8,
            r@[3] == ((self.payload >> 8) & 0xff) as u8,
            r@[4] == (self.payload & 0xff) as u8,
            forall|i: int| 5 <= i < 18 ==> r@[i] == 0,
    {
        let mut tx_buf = [0u8;18];
        tx_buf[0] = self.proc_id;
        tx_buf[1] = ((self.payload >> 24) & 0xff) as u8;
        tx_buf[2] = ((self.payload >> 16) & 0xff) as u8;
        tx_buf[3] = ((self.payload >> 8) & 0xff) as u8;
        tx_buf[4] = (self.payload & 0xff) as u8;
        tx_buf
    }
}

impl SlaveResponse<NotReady> {
    /// A blank reply slot: no origin recorded, payload empty.
    pub fn new() -> (r: SlaveResponse<NotReady>)
        ensures
            r.proc_id == 0,
            r.host_config is Unselected,
            r.size == 0,
            r.payload == 0,
    {
        SlaveResponse {
            state: NotReady { __private: () },
            proc_id: 0u8,
            host_config: ValidHostInterfaces::Unselected,
            size: 0u8,
            payload: 0u32,
        }
    }

    pub fn set_proc_id(&mut self, proc_id: u8)
        ensures
            *final(self) == (SlaveResponse { proc_id, ..*old(self) }),
    {
        self.proc_id = proc_id;
    }

    pub fn set_host_config(&mut self, interface: ValidHostInterfaces)
        ensures
            *final(self) == (SlaveResponse { host_config: interface, ..*old(self) }),
    {
        self.host_config = interface;
    }

    pub fn set_size(&mut self, size: u8)
        ensures
            *final(self) == (SlaveResponse { size, ..*old(self) }),
    {
        self.size = size;
    }

    pub fn set_payload(&mut self, payload: u32)
        ensures
            *final(self) == (SlaveResponse { payload, ..*old(self) }),
    {
        self.payload = payload;
    }

    /// Promotes the reply to `Ready` once the device has answered; the
    /// promotion itself is unconditional and keeps every field.
    pub fn init_ready(self) -> (r: Result<SlaveResponse<Ready>, &'static str>)
        ensures
            r is Ok,
            same_response_fields(self, r->Ok_0),
    {
        self.transition(Ready { __private: () })
    }
}

} // verus!
