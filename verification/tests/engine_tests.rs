use pico_bridge::codec::encode_smi_read;
use pico_bridge::engine::{DispatchAction, Engine};
use pico_bridge::protocol::host::{Clean, HostRequest, ValidInterfaces, ValidOps};
use pico_bridge::protocol::ValidHostInterfaces;

/// A validated SMI read request with the given correlation id and origin.
fn smi_read_request(proc_id: u8, origin: ValidHostInterfaces) -> HostRequest<Clean> {
    let mut hr = HostRequest::new();
    hr.set_proc_id(proc_id);
    hr.set_interface(ValidInterfaces::SMI);
    hr.set_operation(ValidOps::Read);
    hr.set_size(2);
    hr.set_payload([0, 2, 0, 0]);
    hr.set_host_config(origin);
    hr.init_clean().expect("two-word SMI read must validate")
}

fn config_request(code: u32) -> HostRequest<Clean> {
    let mut hr = HostRequest::new();
    hr.set_interface(ValidInterfaces::Config);
    hr.set_operation(ValidOps::SetOp);
    hr.set_size(1);
    hr.set_payload([code, 0, 0, 0]);
    hr.init_clean().expect("a config command must validate")
}

fn gpio_request(level: u32) -> HostRequest<Clean> {
    let mut hr = HostRequest::new();
    hr.set_interface(ValidInterfaces::GPIO);
    hr.set_size(1);
    hr.set_payload([level, 0, 0, 0]);
    hr.init_clean().expect("a one-word GPIO command must validate")
}

#[test]
fn smi_dispatch_sends_packed_word() {
    let mut engine = Engine::new();
    engine
        .submit(smi_read_request(1, ValidHostInterfaces::Serial))
        .expect("an empty queue accepts a request");
    let action = engine.dispatch();
    assert_eq!(action, Some(DispatchAction::SmiSend(encode_smi_read(0, 2))));
}

#[test]
fn config_sentinels_pick_precomputed_divisors() {
    let mut engine = Engine::new();
    engine.submit(config_request(25)).unwrap();
    engine.submit(config_request(10)).unwrap();
    engine.submit(config_request(7)).unwrap();
    assert_eq!(
        engine.dispatch(),
        Some(DispatchAction::SetClockDivisor { int_part: 4, frac_part: 145 })
    );
    assert_eq!(
        engine.dispatch(),
        Some(DispatchAction::SetClockDivisor { int_part: 1, frac_part: 145 })
    );
    assert_eq!(
        engine.dispatch(),
        Some(DispatchAction::SetClockDivisor { int_part: 7, frac_part: 0 })
    );
}

#[test]
fn gpio_dispatch_sets_pin_level() {
    let mut engine = Engine::new();
    engine.submit(gpio_request(1)).unwrap();
    engine.submit(gpio_request(0)).unwrap();
    assert_eq!(engine.dispatch(), Some(DispatchAction::SetPin(true)));
    assert_eq!(engine.dispatch(), Some(DispatchAction::SetPin(false)));
}

#[test]
fn fourth_request_reports_queue_full() {
    // Scenario: the request queue already holds three validated requests.
    let mut engine = Engine::new();
    for id in 1..=3 {
        engine
            .submit(smi_read_request(id, ValidHostInterfaces::Serial))
            .expect("the first three requests fit");
    }
    match engine.submit(smi_read_request(4, ValidHostInterfaces::Serial)) {
        Err(e) => assert_eq!(e, "Error Pushing Host Request to queue\n\r"),
        Ok(()) => panic!("a fourth request must be turned away"),
    }
    // The dropped request changed nothing: the first dispatch still serves
    // request 1.
    assert!(engine.dispatch().is_some());
    let routed = engine.complete(Some(0));
    assert!(routed);
    assert_eq!(engine.route().expect("a completed reply routes").proc_id, 1);
}

#[test]
fn second_request_waits_until_first_is_routed() {
    // Two valid requests back to back, no hardware completion yet.
    let mut engine = Engine::new();
    engine
        .submit(smi_read_request(1, ValidHostInterfaces::Serial))
        .unwrap();
    engine
        .submit(smi_read_request(2, ValidHostInterfaces::SPI))
        .unwrap();
    assert!(engine.dispatch().is_some());
    // In flight: nothing more is dispatched.
    assert_eq!(engine.dispatch(), None);
    // Completed but not yet routed: still nothing.
    assert!(engine.complete(Some(0xBEEF)));
    assert_eq!(engine.dispatch(), None);
    // Routed: the reply belongs to the first request.
    let reply = engine.route().expect("a completed reply routes");
    assert_eq!(reply.proc_id, 1);
    assert_eq!(reply.payload, 0xBEEF);
    // Only now the second request goes out.
    assert_eq!(
        engine.dispatch(),
        Some(DispatchAction::SmiSend(encode_smi_read(0, 2)))
    );
}

#[test]
fn replies_keep_request_order() {
    // Three reply-producing requests; the replies come back in queue order,
    // each to its own originating transport.
    let mut engine = Engine::new();
    engine
        .submit(smi_read_request(1, ValidHostInterfaces::Serial))
        .unwrap();
    engine
        .submit(smi_read_request(2, ValidHostInterfaces::SPI))
        .unwrap();
    engine
        .submit(smi_read_request(3, ValidHostInterfaces::UART))
        .unwrap();
    let words = [0x10u32, 0x20, 0x30];
    let expected = [
        (1u8, ValidHostInterfaces::Serial),
        (2u8, ValidHostInterfaces::SPI),
        (3u8, ValidHostInterfaces::UART),
    ];
    for i in 0..3 {
        assert!(engine.dispatch().is_some());
        assert!(engine.complete(Some(words[i])));
        let reply = engine.route().expect("a completed reply routes");
        assert_eq!(reply.proc_id, expected[i].0);
        assert_eq!(reply.host_config, expected[i].1);
        assert_eq!(reply.payload, words[i]);
    }
    assert_eq!(engine.dispatch(), None);
}

#[test]
fn completion_without_word_leaves_payload_zero() {
    let mut engine = Engine::new();
    engine
        .submit(smi_read_request(9, ValidHostInterfaces::Serial))
        .unwrap();
    assert!(engine.dispatch().is_some());
    assert!(engine.complete(None));
    let reply = engine.route().expect("a completed reply routes");
    assert_eq!(reply.proc_id, 9);
    assert_eq!(reply.payload, 0);
}

#[test]
fn completion_with_no_open_slot_reports_false() {
    let mut engine = Engine::new();
    assert!(!engine.complete(Some(5)));
    assert!(engine.route().is_none());
}

#[test]
fn fire_and_forget_requests_open_no_reply_slot() {
    let mut engine = Engine::new();
    engine.submit(gpio_request(1)).unwrap();
    engine
        .submit(smi_read_request(2, ValidHostInterfaces::Serial))
        .unwrap();
    assert_eq!(engine.dispatch(), Some(DispatchAction::SetPin(true)));
    // The GPIO command produced no reply, so the next dispatch proceeds at
    // once.
    assert!(engine.dispatch().is_some());
    assert!(engine.complete(Some(1)));
    assert_eq!(engine.route().unwrap().proc_id, 2);
}
