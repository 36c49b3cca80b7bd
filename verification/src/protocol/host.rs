//! Host requests and the validation gate that turns raw transport fields
//! into a well-formed, interface-specific command.
//!
//! A request starts `Unclean`, its fields freely settable.  The one
//! transition `init_clean` checks the per-interface rules and either yields
//! a `Clean` request, whose payload has been collapsed to the device-channel
//! words, or the documented diagnostic string.  Only `Clean` requests can be
//! exchanged for a reply slot, so nothing unvalidated reaches the device.

use vstd::prelude::*;
use vstd::slice::slice_subrange;
use crate::codec::{
    packed16,
    packed8,
    combine_u16_to_u32,
    combine_u8_to_u32,
    encode_smi_read,
    encode_smi_write,
    smi_read_frame,
    smi_write_frame,
};
use crate::protocol::ValidHostInterfaces;
use crate::protocol::Send;
use crate::protocol::slave::{NotReady, SlaveResponse};

verus! {

/// Compile-time tag for the validation state of a request.
pub trait State {

}

/// The request has not been validated.
#[derive(Debug)]
pub struct Unclean {
    __private: (),
}

/// The request has been validated.
#[derive(Debug)]
pub struct Clean {
    __private: (),
}

impl State for Unclean {

}

impl State for Clean {

}

/// The operations a host can ask for.
#[derive(Copy, Clone, PartialEq, Eq, Structural, Debug)]
pub enum ValidOps {
    NoOp,
    Read,
    Write,
    SetOp,
    Get,
}

/// The device-facing interfaces a request can select.
#[derive(Copy, Clone, PartialEq, Eq, Structural, Debug)]
pub enum ValidInterfaces {
    Unselected,
    SMI,
    JTAG,
    I2C,
    SPI,
    Config,
    GPIO,
}

/// The operation selected by a numeric operation code, if the code is
/// recognized.
pub open spec fn op_from_code(num: u16) -> Result<ValidOps, ()> {
    if num == 0 {
        Ok(ValidOps::NoOp)
    } else if num == 1 {
        Ok(ValidOps::Read)
    } else if num == 2 {
        Ok(ValidOps::Write)
    } else if num == 3 {
        Ok(ValidOps::SetOp)
    } else if num == 4 {
        Ok(ValidOps::Get)
    } else {
        Err(())
    }
}

/// The interface selected by a numeric interface code, if the code is
/// recognized.
pub open spec fn interface_from_code(num: u16) -> Result<ValidInterfaces, ()> {
    if num == 0 {
        Ok(ValidInterfaces::Unselected)
    } else if num == 1 {
        Ok(ValidInterfaces::SMI)
    } else if num == 2 {
        Ok(ValidInterfaces::JTAG)
    } else if num == 3 {
        Ok(ValidInterfaces::I2C)
    } else if num == 4 {
        Ok(ValidInterfaces::SPI)
    } else if num == 5 {
        Ok(ValidInterfaces::Config)
    } else if num == 6 {
        Ok(ValidInterfaces::GPIO)
    } else {
        Err(())
    }
}

impl ValidOps {
    /// Decodes a numeric operation code from a binary frame.
    pub fn try_from(num: u16) -> (r: Result<ValidOps, ()>)
        ensures
            r == op_from_code(num),
    {
        match num {
            0 => Ok(ValidOps::NoOp),
            1 => Ok(ValidOps::Read),
            2 => Ok(ValidOps::Write),
            3 => Ok(ValidOps::SetOp),
            4 => Ok(ValidOps::Get),
            _ => Err(()),
        }
    }
}

impl ValidInterfaces {
    /// Decodes a numeric interface code from a binary frame.
    pub fn try_from(num: u16) -> (r: Result<ValidInterfaces, ()>)
        ensures
            r == interface_from_code(num),
    {
        match num {
            0 => Ok(ValidInterfaces::Unselected),
            1 => Ok(ValidInterfaces::SMI),
            2 => Ok(ValidInterfaces::JTAG),
            3 => Ok(ValidInterfaces::I2C),
            4 => Ok(ValidInterfaces::SPI),
            5 => Ok(ValidInterfaces::Config),
            6 => Ok(ValidInterfaces::GPIO),
            _ => Err(()),
        }
    }
}

/// The in-flight command, tagged with its validation state.
pub struct HostRequest<S: State> {
    pub state: S,
    pub proc_id: u8,
    pub interface: ValidInterfaces,
    pub host_config: ValidHostInterfaces,
    pub operation: ValidOps,
    pub checksum: u8,
    pub size: u8,
    pub payload: [u32; 4],
}

/// Whether validation turns this combination of fields away.
pub open spec fn rejects(interface: ValidInterfaces, operation: ValidOps, size: u8) -> bool {
    ||| interface is Unselected
    ||| (interface is SMI && operation is Read && size != 2)
    ||| (interface is SMI && operation is Write && size != 3)
    ||| (interface is Config && operation is SetOp && size == 0)
    ||| (interface is GPIO && size != 1)
}

/// The diagnostic string validation answers with when it turns a request
/// away.
pub open spec fn reject_msg(
    interface: ValidInterfaces,
    operation: ValidOps,
    size: u8,
) -> &'static str {
    if interface is Unselected {
        "No Interface Selected\n\r"
    } else if interface is SMI && operation is Read {
        "Invalid Arguments for SMI: Read\n\r"
    } else if interface is SMI && operation is Write {
        "Invalid Arguments for SMI: Write\n\r"
    } else {
        "Invalid Arguments"
    }
}

/// The request size after validation: SMI reads and writes collapse to the
/// single device-channel word produced by bit-packing.
pub open spec fn cleaned_size(interface: ValidInterfaces, operation: ValidOps, size: u8) -> u8 {
    if interface is SMI && (operation is Read || operation is Write) {
        1u8
    } else {
        size
    }
}

/// The payload after validation: SMI reads and writes pack their arguments
/// into the device-channel word in slot zero.
pub open spec fn cleaned_payload(
    interface: ValidInterfaces,
    operation: ValidOps,
    payload: Seq<u32>,
) -> Seq<u32> {
    if interface is SMI && operation is Read {
        payload.update(0, smi_read_frame(payload[0] as u8, payload[1] as u8))
    } else if interface is SMI && operation is Write {
        payload.update(0, smi_write_frame(payload[0] as u8, payload[1] as u8, payload[2] as u16))
    } else {
        payload
    }
}

/// Whether two requests, whatever their validation states, carry the same
/// fields.
pub open spec fn same_fields<A: State, B: State>(a: HostRequest<A>, b: HostRequest<B>) -> bool {
    &&& a.proc_id == b.proc_id
    &&& a.interface == b.interface
    &&& a.host_config == b.host_config
    &&& a.operation == b.operation
    &&& a.checksum == b.checksum
    &&& a.size == b.size
    &&& a.payload == b.payload
}

impl<S: State> HostRequest<S> {
    /// Re-tags the request without touching its fields.
    fn transition<To: State>(self, marker: To) -> (r: Result<HostRequest<To>, &'static str>)
        ensures
            r is Ok,
            same_fields(self, r->Ok_0),
    {
        Ok(
            HostRequest {
                state: marker,
                proc_id: self.proc_id,
                interface: self.interface,
                host_config: self.host_config,
                operation: self.operation,
                checksum: self.checksum,
                size: self.size,
                payload: self.payload,
            },
        )
    }
}

impl Send for HostRequest<Clean> {
    fn exchange_for_slave_response(&mut self) -> (r: Result<SlaveResponse<NotReady>, &'static str>)
        ensures
            r is Ok,
            r->Ok_0.proc_id == old(self).proc_id,
            r->Ok_0.host_config == old(self).host_config,
            r->Ok_0.size == 0,
            r->Ok_0.payload == 0,
            *final(self) == *old(self),
    {
        let mut sr = SlaveResponse::new();
        sr.set_host_config(self.host_config);
        sr.set_proc_id(self.proc_id);
        Ok(sr)
    }
}

impl HostRequest<Unclean> {
    /// A blank request: no interface, no operation, empty payload.
    pub fn new() -> (r: HostRequest<Unclean>)
        ensures
            r.proc_id == 0,
            r.interface is Unselected,
            r.host_config is Unselected,
            r.operation is NoOp,
            r.checksum == 0,
            r.size == 0,
            forall|i: int| 0 <= i < 4 ==> r.payload[i] == 0,
    {
        HostRequest {
            state: Unclean { __private: () },
            proc_id: 0u8,
            interface: ValidInterfaces::Unselected,
            host_config: ValidHostInterfaces::Unselected,
            operation: ValidOps::NoOp,
            checksum: 0u8,
            size: 0u8,
            payload: [0u32;4],
        }
    }

    pub fn set_proc_id(&mut self, proc_id: u8)
        ensures
            *final(self) == (HostRequest { proc_id, ..*old(self) }),
    {
        self.proc_id = proc_id;
    }

    pub fn set_operation(&mut self, op: ValidOps)
        ensures
            *final(self) == (HostRequest { operation: op, ..*old(self) }),
    {
        self.operation = op;
    }

    /// Sets the payload word count, clamped to the four available slots.
    pub fn set_size(&mut self, size: u8)
        ensures
            *final(self) == (HostRequest { size: if size > 4 { 4u8 } else { size }, ..*old(self) }),
    {
        if size > 4 {
            self.size = 4;
        } else {
            self.size = size;
        }
    }

    pub fn set_host_config(&mut self, cfg: ValidHostInterfaces)
        ensures
            *final(self) == (HostRequest { host_config: cfg, ..*old(self) }),
    {
        self.host_config = cfg;
    }

    pub fn set_payload(&mut self, payload: [u32; 4])
        ensures
            *final(self) == (HostRequest { payload, ..*old(self) }),
    {
        self.payload = payload;
    }

    pub fn set_checksum(&mut self, checksum: u8)
        ensures
            *final(self) == (HostRequest { checksum, ..*old(self) }),
    {
        self.checksum = checksum;
    }

    pub fn set_interface(&mut self, interface: ValidInterfaces)
        ensures
            *final(self) == (HostRequest { interface, ..*old(self) }),
    {
        self.interface = interface;
    }

    /// Builds and validates a request from a 16-bit SPI frame: word 0
    /// carries the interface code in its top three bits, then the operation
    /// code, then two bits encoding the size less one, then the checksum
    /// byte; the remaining words are packed pairwise into the payload.
    pub fn build_from_16bit_spi(self, buf: &[u16]) -> (r: Result<HostRequest<Clean>, &'static str>)
        requires
            buf@.len() == 9,
        ensures
            ({
                let w = buf@[0];
                let icode = (w >> 13) & 0b111;
                let ocode = (w >> 10) & 0b111;
                &&& icode > 6 ==> r == Err::<HostRequest<Clean>, &'static str>("Invalid Interface")
                &&& icode <= 6 && ocode > 4 ==> r == Err::<HostRequest<Clean>, &'static str>(
                    "Invalid Operation",
                )
                &&& icode <= 6 && ocode <= 4 ==> ({
                    let interface = interface_from_code(icode)->Ok_0;
                    let operation = op_from_code(ocode)->Ok_0;
                    let size = (((w >> 8) & 0b11) + 1) as u8;
                    &&& (r is Ok <==> !rejects(interface, operation, size))
                    &&& (r is Err ==> r->Err_0 == reject_msg(interface, operation, size))
                    &&& (r is Ok ==> {
                        &&& r->Ok_0.proc_id == self.proc_id
                        &&& r->Ok_0.interface == interface
                        &&& r->Ok_0.host_config == ValidHostInterfaces::SPI
                        &&& r->Ok_0.operation == operation
                        &&& r->Ok_0.checksum == (w & 0xFF) as u8
                        &&& r->Ok_0.size == cleaned_size(interface, operation, size)
                        &&& r->Ok_0.payload@ == cleaned_payload(
                            interface,
                            operation,
                            packed16(buf@.skip(1)),
                        )
                    })
                })
            }),
    {
        let mut cur = self;
        let interface_code = (buf[0] >> 13) & 0b111;
        match ValidInterfaces::try_from(interface_code) {
            Ok(interface) => {
                cur.set_interface(interface);
            },
            _ => {
                return Err("Invalid Interface");
            },
        }
        let operation_code = (buf[0] >> 10) & 0b111;
        match ValidOps::try_from(operation_code) {
            Ok(op) => {
                cur.set_operation(op);
            },
            _ => {
                return Err("Invalid Operation");
            },
        }
        let size_bits = (buf[0] >> 8) & 0b11;
        proof {
            let w = buf@[0];
            assert((w >> 8) & 0b11 < 4) by (bit_vector);
        }
        let size = size_bits as u8 + 1;
        let checksum = (buf[0] & 0xFF) as u8;
        let payload = combine_u16_to_u32(slice_subrange(buf, 1, 9));
        proof {
            assert(buf@.subrange(1, 9) =~= buf@.skip(1));
        }
        cur.set_size(size);
        cur.set_host_config(ValidHostInterfaces::SPI);
        cur.set_payload(payload);
        cur.set_checksum(checksum);
        cur.init_clean()
    }

    /// Builds and validates a request from an 8-bit SPI frame: byte 0
    /// carries the interface code in its top three bits, then the operation
    /// code, then two bits encoding the size less one; byte 1 is the
    /// checksum and the remaining bytes are packed four at a time into the
    /// payload.
    pub fn build_from_8bit_spi(self, buf: &[u8]) -> (r: Result<HostRequest<Clean>, &'static str>)
        requires
            buf@.len() == 18,
        ensures
            ({
                let w = buf@[0];
                let icode = ((w >> 5) & 0b111) as u16;
                let ocode = ((w >> 2) & 0b111) as u16;
                &&& icode > 6 ==> r == Err::<HostRequest<Clean>, &'static str>("Invalid Interface")
                &&& icode <= 6 && ocode > 4 ==> r == Err::<HostRequest<Clean>, &'static str>(
                    "Invalid Operation",
                )
                &&& icode <= 6 && ocode <= 4 ==> ({
                    let interface = interface_from_code(icode)->Ok_0;
                    let operation = op_from_code(ocode)->Ok_0;
                    let size = ((w & 0b11) + 1) as u8;
                    &&& (r is Ok <==> !rejects(interface, operation, size))
                    &&& (r is Err ==> r->Err_0 == reject_msg(interface, operation, size))
                    &&& (r is Ok ==> {
                        &&& r->Ok_0.proc_id == self.proc_id
                        &&& r->Ok_0.interface == interface
                        &&& r->Ok_0.host_config == ValidHostInterfaces::SPI
                        &&& r->Ok_0.operation == operation
                        &&& r->Ok_0.checksum == buf@[1]
                        &&& r->Ok_0.size == cleaned_size(interface, operation, size)
                        &&& r->Ok_0.payload@ == cleaned_payload(
                            interface,
                            operation,
                            packed8(buf@.skip(2)),
                        )
                    })
                })
            }),
    {
        let mut cur = self;
        let interface_code = ((buf[0] >> 5) & 0b111) as u16;
        match ValidInterfaces::try_from(interface_code) {
            Ok(interface) => {
                cur.set_interface(interface);
            },
            _ => {
                return Err("Invalid Interface");
            },
        }
        let operation_code = ((buf[0] >> 2) & 0b111) as u16;
        match ValidOps::try_from(operation_code) {
            Ok(op) => {
                cur.set_operation(op);
            },
            _ => {
                return Err("Invalid Operation");
            },
        }
        let size_bits = buf[0] & 0b11;
        proof {
            let w = buf@[0];
            assert(w & 0b11 < 4) by (bit_vector);
        }
        let size = size_bits + 1;
        let checksum = buf[1];
        let payload = combine_u8_to_u32(slice_subrange(buf, 2, 18));
        proof {
            assert(buf@.subrange(2, 18) =~= buf@.skip(2));
        }
        cur.set_size(size);
        cur.set_host_config(ValidHostInterfaces::SPI);
        cur.set_payload(payload);
        cur.set_checksum(checksum);
        cur.init_clean()
    }

    /// The single validation gate.  Every combination of fields either
    /// yields a `Clean` request satisfying the per-interface rules or the
    /// documented diagnostic; nothing panics and nothing is coerced.
    pub fn init_clean(self) -> (r: Result<HostRequest<Clean>, &'static str>)
        ensures
            r is Ok <==> !rejects(self.interface, self.operation, self.size),
            rejects(self.interface, self.operation, self.size) ==> r->Err_0 == reject_msg(
                self.interface,
                self.operation,
                self.size,
            ),
            !rejects(self.interface, self.operation, self.size) ==> {
                &&& r->Ok_0.proc_id == self.proc_id
                &&& r->Ok_0.interface == self.interface
                &&& r->Ok_0.host_config == self.host_config
                &&& r->Ok_0.operation == self.operation
                &&& r->Ok_0.checksum == self.checksum
                &&& r->Ok_0.size == cleaned_size(self.interface, self.operation, self.size)
                &&& r->Ok_0.payload@ == cleaned_payload(
                    self.interface,
                    self.operation,
                    self.payload@,
                )
            },
    {
        let mut cur = self;
        match cur.interface {
            ValidInterfaces::SMI => {
                if cur.operation == ValidOps::Read {
                    if cur.size != 2 {
                        return Err("Invalid Arguments for SMI: Read\n\r");
                    }
                    let word = encode_smi_read(cur.payload[0] as u8, cur.payload[1] as u8);
                    cur.payload[0] = word;
                    cur.size = 1;
                } else if cur.operation == ValidOps::Write {
                    if cur.size != 3 {
                        return Err("Invalid Arguments for SMI: Write\n\r");
                    }
                    let word = encode_smi_write(
                        cur.payload[0] as u8,
                        cur.payload[1] as u8,
                        cur.payload[2] as u16,
                    );
                    cur.payload[0] = word;
                    cur.size = 1;
                }
            },
            ValidInterfaces::Config => {
                // A clock-divisor set needs the divisor word.
                if cur.operation == ValidOps::SetOp && cur.size == 0 {
                    return Err("Invalid Arguments");
                }
            },
            ValidInterfaces::GPIO => {
                if cur.size != 1 {
                    return Err("Invalid Arguments");
                }
            },
            ValidInterfaces::Unselected => {
                return Err("No Interface Selected\n\r");
            },
            _ => {
            },
        }
        cur.transition(Clean { __private: () })
    }
}

} // verus!
