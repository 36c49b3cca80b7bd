use pico_bridge::codec::{encode_smi_read, encode_smi_write};
use pico_bridge::protocol::host::{HostRequest, ValidInterfaces, ValidOps};
use pico_bridge::protocol::slave::{HostErr, SlaveResponse};
use pico_bridge::protocol::{Respond, ValidHostInterfaces};

#[test]
fn ops_decode_from_codes() {
    assert_eq!(ValidOps::try_from(0), Ok(ValidOps::NoOp));
    assert_eq!(ValidOps::try_from(1), Ok(ValidOps::Read));
    assert_eq!(ValidOps::try_from(2), Ok(ValidOps::Write));
    assert_eq!(ValidOps::try_from(3), Ok(ValidOps::SetOp));
    assert_eq!(ValidOps::try_from(4), Ok(ValidOps::Get));
    assert_eq!(ValidOps::try_from(5), Err(()));
}

#[test]
fn interfaces_decode_from_codes() {
    assert_eq!(ValidInterfaces::try_from(0), Ok(ValidInterfaces::Unselected));
    assert_eq!(ValidInterfaces::try_from(1), Ok(ValidInterfaces::SMI));
    assert_eq!(ValidInterfaces::try_from(6), Ok(ValidInterfaces::GPIO));
    assert_eq!(ValidInterfaces::try_from(7), Err(()));
}

#[test]
fn smi_read_validation_packs_payload() {
    let mut hr = HostRequest::new();
    hr.set_interface(ValidInterfaces::SMI);
    hr.set_operation(ValidOps::Read);
    hr.set_size(2);
    hr.set_payload([0, 2, 0, 0]);
    let clean = hr.init_clean().expect("two-word SMI read must validate");
    assert_eq!(clean.size, 1);
    assert_eq!(clean.payload[0], encode_smi_read(0, 2));
    assert_eq!(clean.payload[1], 2);
}

#[test]
fn smi_read_wrong_size_is_rejected() {
    let mut hr = HostRequest::new();
    hr.set_interface(ValidInterfaces::SMI);
    hr.set_operation(ValidOps::Read);
    hr.set_size(3);
    hr.set_payload([0, 2, 9, 0]);
    match hr.init_clean() {
        Err(e) => assert_eq!(e, "Invalid Arguments for SMI: Read\n\r"),
        Ok(_) => panic!("three-word SMI read must be rejected"),
    }
}

#[test]
fn smi_write_validation_packs_payload() {
    let mut hr = HostRequest::new();
    hr.set_interface(ValidInterfaces::SMI);
    hr.set_operation(ValidOps::Write);
    hr.set_size(3);
    hr.set_payload([5, 9, 0x1234, 0]);
    let clean = hr.init_clean().expect("three-word SMI write must validate");
    assert_eq!(clean.size, 1);
    assert_eq!(clean.payload[0], encode_smi_write(5, 9, 0x1234));
}

#[test]
fn smi_write_wrong_size_is_rejected() {
    let mut hr = HostRequest::new();
    hr.set_interface(ValidInterfaces::SMI);
    hr.set_operation(ValidOps::Write);
    hr.set_size(2);
    match hr.init_clean() {
        Err(e) => assert_eq!(e, "Invalid Arguments for SMI: Write\n\r"),
        Ok(_) => panic!("two-word SMI write must be rejected"),
    }
}

#[test]
fn no_interface_is_rejected() {
    let hr = HostRequest::new();
    match hr.init_clean() {
        Err(e) => assert_eq!(e, "No Interface Selected\n\r"),
        Ok(_) => panic!("a request without an interface must be rejected"),
    }
}

#[test]
fn gpio_needs_exactly_one_word() {
    let mut hr = HostRequest::new();
    hr.set_interface(ValidInterfaces::GPIO);
    hr.set_size(2);
    match hr.init_clean() {
        Err(e) => assert_eq!(e, "Invalid Arguments"),
        Ok(_) => panic!("a two-word GPIO command must be rejected"),
    }
    let mut hr = HostRequest::new();
    hr.set_interface(ValidInterfaces::GPIO);
    hr.set_size(1);
    hr.set_payload([1, 0, 0, 0]);
    assert!(hr.init_clean().is_ok());
}

#[test]
fn config_set_needs_a_payload_word() {
    let mut hr = HostRequest::new();
    hr.set_interface(ValidInterfaces::Config);
    hr.set_operation(ValidOps::SetOp);
    hr.set_size(0);
    match hr.init_clean() {
        Err(e) => assert_eq!(e, "Invalid Arguments"),
        Ok(_) => panic!("a clock set without a divisor word must be rejected"),
    }
}

#[test]
fn config_passes_through() {
    let mut hr = HostRequest::new();
    hr.set_interface(ValidInterfaces::Config);
    hr.set_operation(ValidOps::SetOp);
    hr.set_size(1);
    hr.set_payload([25, 0, 0, 0]);
    let clean = hr.init_clean().expect("a config command must validate");
    assert_eq!(clean.size, 1);
    assert_eq!(clean.payload[0], 25);
}

#[test]
fn set_size_clamps_to_four() {
    let mut hr = HostRequest::new();
    hr.set_size(9);
    hr.set_interface(ValidInterfaces::Config);
    let clean = hr.init_clean().expect("a config command must validate");
    assert_eq!(clean.size, 4);
}

#[test]
fn clean_request_exchanges_for_blank_response() {
    let mut hr = HostRequest::new();
    hr.set_proc_id(42);
    hr.set_interface(ValidInterfaces::SMI);
    hr.set_operation(ValidOps::Read);
    hr.set_size(2);
    hr.set_payload([0, 2, 0, 0]);
    hr.set_host_config(ValidHostInterfaces::Serial);
    let mut clean = hr.init_clean().expect("two-word SMI read must validate");
    let sr = pico_bridge::protocol::Send::exchange_for_slave_response(&mut clean)
        .expect("the exchange always succeeds");
    assert_eq!(sr.proc_id, 42);
    assert_eq!(sr.host_config, ValidHostInterfaces::Serial);
    assert_eq!(sr.size, 0);
    assert_eq!(sr.payload, 0);
}

#[test]
fn response_promotion_keeps_fields() {
    let mut sr = SlaveResponse::new();
    sr.set_proc_id(7);
    sr.set_host_config(ValidHostInterfaces::SPI);
    sr.set_payload(0x11223344);
    let ready = sr.init_ready().expect("promotion always succeeds");
    assert_eq!(ready.proc_id, 7);
    assert_eq!(ready.host_config, ValidHostInterfaces::SPI);
    assert_eq!(ready.payload, 0x11223344);
}

#[test]
fn spi_reply_frame_layout() {
    let mut sr = SlaveResponse::new();
    sr.set_proc_id(7);
    sr.set_host_config(ValidHostInterfaces::SPI);
    sr.set_payload(0x1122_3344);
    let ready = sr.init_ready().expect("promotion always succeeds");
    let frame = ready.spi_reply_frame();
    assert_eq!(frame[0], 7);
    assert_eq!(frame[1], 0x11);
    assert_eq!(frame[2], 0x22);
    assert_eq!(frame[3], 0x33);
    assert_eq!(frame[4], 0x44);
    for i in 5..18 {
        assert_eq!(frame[i], 0);
    }
}

#[test]
fn responding_without_origin_times_out() {
    let sr = SlaveResponse::new();
    let ready = sr.init_ready().expect("promotion always succeeds");
    assert_eq!(ready.respond_to_host(), HostErr::Timeout);
    let mut sr = SlaveResponse::new();
    sr.set_host_config(ValidHostInterfaces::Serial);
    let ready = sr.init_ready().expect("promotion always succeeds");
    assert_eq!(ready.respond_to_host(), HostErr::NoErr);
}

#[test]
fn spi_frame_16bit_read_builds_clean_request() {
    // Word 0: interface SMI (1), operation Read (1), size bits 01 (size 2),
    // checksum 0xAB; PHY address 0 in the first payload word, register 2 in
    // the second.
    let word0: u16 = (1 << 13) | (1 << 10) | (1 << 8) | 0xAB;
    let buf: [u16; 9] = [word0, 0, 0, 2, 0, 0, 0, 0, 0];
    let hr = HostRequest::new();
    let clean = hr
        .build_from_16bit_spi(&buf)
        .expect("a well-formed SMI read frame must validate");
    assert_eq!(clean.interface, ValidInterfaces::SMI);
    assert_eq!(clean.size, 1);
    assert_eq!(clean.payload[0], encode_smi_read(0, 2));
    assert_eq!(clean.checksum, 0xAB);
}

#[test]
fn spi_frame_16bit_bad_operation_is_rejected() {
    let word0: u16 = (1 << 13) | (7 << 10);
    let buf: [u16; 9] = [word0, 0, 0, 0, 0, 0, 0, 0, 0];
    match HostRequest::new().build_from_16bit_spi(&buf) {
        Err(e) => assert_eq!(e, "Invalid Operation"),
        Ok(_) => panic!("operation code 7 must be rejected"),
    }
}

#[test]
fn spi_frame_16bit_wrong_read_size_is_rejected() {
    // Size bits 00 encode a single payload word, but an SMI read needs two.
    let word0: u16 = (1 << 13) | (1 << 10);
    let buf: [u16; 9] = [word0, 0, 0, 2, 0, 0, 0, 0, 0];
    match HostRequest::new().build_from_16bit_spi(&buf) {
        Err(e) => assert_eq!(e, "Invalid Arguments for SMI: Read\n\r"),
        Ok(_) => panic!("a one-word SMI read frame must be rejected"),
    }
}

#[test]
fn spi_frame_8bit_undefined_interface_is_rejected() {
    // Interface bits 0b111 select no defined interface.
    let mut buf = [0u8; 18];
    buf[0] = 0b1110_0000;
    match HostRequest::new().build_from_8bit_spi(&buf) {
        Err(e) => assert_eq!(e, "Invalid Interface"),
        Ok(_) => panic!("interface code 7 must be rejected"),
    }
}

#[test]
fn spi_frame_8bit_read_builds_clean_request() {
    // Byte 0: interface SMI (1), operation Read (1), size bits 01 (size 2);
    // byte 1 checksum; bytes 2-5 are the PHY word, bytes 6-9 the register.
    let mut buf = [0u8; 18];
    buf[0] = (1 << 5) | (1 << 2) | 0b01;
    buf[1] = 0x5C;
    buf[6] = 2;
    let clean = HostRequest::new()
        .build_from_8bit_spi(&buf)
        .expect("a well-formed SMI read frame must validate");
    assert_eq!(clean.interface, ValidInterfaces::SMI);
    assert_eq!(clean.host_config, ValidHostInterfaces::SPI);
    assert_eq!(clean.size, 1);
    assert_eq!(clean.payload[0], encode_smi_read(0, 2));
    assert_eq!(clean.checksum, 0x5C);
}
