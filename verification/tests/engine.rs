use apyee::command::{CommandResponse, CommandResponseError, CommandResult};
use apyee::correlator::{CallState, PendingCall, WaitStep};
use apyee::device::{Device, DEFAULT_PORT, DEFAULT_TIMEOUT};
use apyee::error::DeviceError;
use apyee::framing::{seal, Deframer};
use apyee::ident::{UniqueCommandId, FIRST_ID_BELOW, FIRST_ID_FROM};
use apyee::json::Json;
use apyee::listener::{Delivery, Listener, ListenerAction, ListenerState, ReadEvent};
use apyee::method::Method;
use apyee::property::Property;
use apyee::registry::{Responses, DEFAULT_GRACE};

fn ok(id: i32) -> CommandResponse {
    CommandResponse { id, result: vec![CommandResult::Okay], error: None }
}

fn data(text: &str) -> ReadEvent {
    ReadEvent::Data(text.as_bytes().to_vec())
}

fn frames(deframer: &mut Deframer, text: &str) -> Vec<String> {
    deframer
        .feed(text.as_bytes())
        .into_iter()
        .map(|frame| String::from_utf8(frame).unwrap())
        .collect()
}

#[test]
fn identifiers_count_up_from_the_first() {
    let mut generator = UniqueCommandId::starting_at(7);
    assert_eq!(generator.next(), 7);
    assert_eq!(generator.next(), 8);
    assert_eq!(generator.next(), 9);
}

#[test]
fn identifiers_wrap_around() {
    let mut generator = UniqueCommandId::starting_at(i32::MAX - 1);
    assert_eq!(generator.next(), i32::MAX - 1);
    assert_eq!(generator.next(), i32::MAX);
    assert_eq!(generator.next(), i32::MIN);
    assert_eq!(generator.next(), i32::MIN + 1);
}

#[test]
fn the_first_identifier_is_picked_within_its_range() {
    let mut seen = std::collections::HashSet::new();
    for _ in 0..200 {
        let first = UniqueCommandId::new().next();
        assert!(FIRST_ID_FROM <= first && first < FIRST_ID_BELOW, "{}", first);
        seen.insert(first);
    }
    assert!(seen.len() > 1);
    assert_eq!((FIRST_ID_FROM, FIRST_ID_BELOW), (15, 1500));
}

#[test]
fn many_identifiers_are_pairwise_distinct() {
    let mut generator = UniqueCommandId::starting_at(i32::MAX - 500);
    let mut seen = std::collections::HashSet::new();
    for _ in 0..1000 {
        assert!(seen.insert(generator.next()));
    }
}

#[test]
fn a_frame_is_the_payload_and_the_delimiter() {
    assert_eq!(seal(b"{}"), b"{}\r\n".to_vec());
    assert_eq!(seal(b""), b"\r\n".to_vec());
}

#[test]
fn whole_frames_are_cut_out() {
    let mut deframer = Deframer::new();
    assert_eq!(frames(&mut deframer, "one\r\ntwo\r\n"), vec!["one", "two"]);
    assert_eq!(deframer.pending(), 0);
}

#[test]
fn a_frame_split_between_reads_is_kept() {
    let mut deframer = Deframer::new();
    assert_eq!(frames(&mut deframer, "{\"id\":7,\"res"), Vec::<String>::new());
    assert_eq!(deframer.pending(), 12);
    assert_eq!(frames(&mut deframer, "ult\":[\"ok\"]}\r\n{\"id\":8"), vec!["{\"id\":7,\"result\":[\"ok\"]}"]);
    assert_eq!(deframer.pending(), 7);
    assert_eq!(frames(&mut deframer, "}\r\n"), vec!["{\"id\":8}"]);
    assert_eq!(deframer.pending(), 0);
}

#[test]
fn a_delimiter_split_between_reads_is_found() {
    let mut deframer = Deframer::new();
    assert_eq!(frames(&mut deframer, "abc\r"), Vec::<String>::new());
    assert_eq!(frames(&mut deframer, "\ndef"), vec!["abc"]);
    assert_eq!(deframer.pending(), 3);
}

#[test]
fn lone_carriage_returns_and_line_feeds_end_nothing() {
    let mut deframer = Deframer::new();
    assert_eq!(frames(&mut deframer, "a\rb\nc\n\rd\r\r\ne"), vec!["a\rb\nc\n\rd\r"]);
    assert_eq!(deframer.pending(), 1);
}

#[test]
fn empty_frames_are_frames() {
    let mut deframer = Deframer::new();
    assert_eq!(frames(&mut deframer, "\r\n\r\nx\r\n"), vec!["", "", "x"]);
    assert_eq!(frames(&mut deframer, ""), Vec::<String>::new());
}

#[test]
fn reading_byte_by_byte_gives_the_same_frames() {
    let stream = "first\r\n\r\nsecond \r \n\r\nrest";
    let mut at_once = Deframer::new();
    let expected = frames(&mut at_once, stream);
    let mut one_by_one = Deframer::new();
    let mut got = Vec::new();
    for byte in stream.bytes() {
        for frame in one_by_one.feed(&[byte]) {
            got.push(String::from_utf8(frame).unwrap());
        }
    }
    assert_eq!(got, expected);
    assert_eq!(expected, vec!["first", "", "second \r \n"]);
    assert_eq!(one_by_one.pending(), at_once.pending());
    assert_eq!(at_once.pending(), 4);
}

#[test]
fn the_registry_stores_and_hands_out_once() {
    let mut registry = Responses::new();
    assert_eq!(registry.len(), 0);
    assert!(!registry.contains(7));
    registry.add(ok(7), 0);
    assert!(registry.contains(7));
    assert_eq!(registry.len(), 1);
    assert_eq!(registry.consume(8), None);
    assert_eq!(registry.consume(7), Some(ok(7)));
    assert_eq!(registry.consume(7), None);
    assert_eq!(registry.len(), 0);
}

#[test]
fn a_later_response_replaces_an_earlier_one() {
    let mut registry = Responses::new();
    registry.add(ok(7), 0);
    let second = CommandResponse { id: 7, result: vec![CommandResult::On], error: None };
    registry.add(CommandResponse { id: 7, result: vec![CommandResult::On], error: None }, 1);
    assert_eq!(registry.len(), 1);
    assert_eq!(registry.consume(7), Some(second));
}

#[test]
fn the_registry_counts_its_changes() {
    let mut registry = Responses::new();
    let seen = registry.change_count();
    assert_eq!(seen, 0);
    assert!(!registry.changed_since(seen));
    registry.add(ok(1), 0);
    assert!(registry.changed_since(seen));
    let seen = registry.change_count();
    assert_eq!(seen, 1);
    registry.consume(1);
    registry.expect(2, 100);
    registry.forget(2);
    registry.evict(50);
    assert!(!registry.changed_since(seen));
    registry.close(DeviceError::ConnectionClosed);
    assert!(registry.changed_since(seen));
    assert!(registry.changed_since(registry.change_count()));
}

#[test]
fn the_first_terminal_error_stays() {
    let mut registry = Responses::new();
    assert_eq!(registry.terminal_error(), None);
    registry.close(DeviceError::IoFailure);
    assert_eq!(registry.terminal_error(), Some(DeviceError::IoFailure));
    registry.close(DeviceError::ConnectionClosed);
    assert_eq!(registry.terminal_error(), Some(DeviceError::IoFailure));
}

#[test]
fn an_unclaimed_response_is_dropped_after_the_grace_period() {
    let mut registry = Responses::with_grace(100);
    registry.add(ok(3), 1000);
    assert_eq!(registry.evict(1099), 0);
    assert!(registry.contains(3));
    assert_eq!(registry.evict(1100), 1);
    assert!(!registry.contains(3));
    assert_eq!(registry.evict(5000), 0);
}

#[test]
fn a_response_for_a_waiting_call_is_kept_until_after_its_deadline() {
    let mut registry = Responses::with_grace(100);
    registry.expect(3, 5000);
    registry.add(ok(3), 1000);
    registry.add(ok(4), 1000);
    assert_eq!(registry.evict(1100), 1);
    assert!(registry.contains(3));
    assert!(!registry.contains(4));
    assert_eq!(registry.evict(5099), 0);
    assert!(registry.contains(3));
    assert_eq!(registry.evict(5100), 1);
    assert!(!registry.contains(3));
}

#[test]
fn a_deadline_that_is_behind_does_not_shorten_the_grace_period() {
    let mut registry = Responses::with_grace(100);
    registry.expect(3, 500);
    registry.add(ok(3), 1000);
    assert_eq!(registry.evict(1099), 0);
    assert_eq!(registry.evict(1100), 1);
}

#[test]
fn times_do_not_overflow() {
    let mut registry = Responses::with_grace(u64::MAX);
    registry.add(ok(1), u64::MAX - 1);
    assert_eq!(registry.evict(u64::MAX - 1), 0);
    assert_eq!(registry.evict(u64::MAX), 1);
    let call = PendingCall::begin(&mut registry, 2, u64::MAX - 5, 10);
    assert_eq!(call.deadline, u64::MAX);
}

#[test]
fn the_default_grace_period_is_five_seconds() {
    assert_eq!(DEFAULT_GRACE, 5000);
    let mut registry = Responses::new();
    registry.add(ok(1), 0);
    assert_eq!(registry.evict(4999), 0);
    assert_eq!(registry.evict(5000), 1);
}

#[test]
fn a_call_waits_then_gets_its_response() {
    let mut registry = Responses::new();
    let call = PendingCall::begin(&mut registry, 7, 1000, 10000);
    assert_eq!(call, PendingCall { id: 7, deadline: 11000 });
    assert_eq!(call.poll(&mut registry, 1000), WaitStep::Wait(10000));
    assert_eq!(call.poll(&mut registry, 4000), WaitStep::Wait(7000));
    registry.add(ok(7), 4500);
    assert_eq!(call.poll(&mut registry, 4501), WaitStep::Matched(ok(7)));
    assert!(!registry.contains(7));
}

#[test]
fn a_call_times_out_at_its_deadline() {
    let mut registry = Responses::new();
    let call = PendingCall::begin(&mut registry, 7, 1000, 10000);
    assert_eq!(call.poll(&mut registry, 10999), WaitStep::Wait(1));
    assert_eq!(call.poll(&mut registry, 11000), WaitStep::TimedOut);
    assert_eq!(WaitStep::TimedOut.into_result(), Some(Err(DeviceError::Timeout)));
}

#[test]
fn a_response_that_is_there_is_delivered_even_after_the_deadline() {
    let mut registry = Responses::new();
    let call = PendingCall::begin(&mut registry, 7, 1000, 10);
    registry.add(ok(7), 1005);
    assert_eq!(call.poll(&mut registry, 999999), WaitStep::Matched(ok(7)));
}

#[test]
fn a_response_that_arrived_before_the_wait_began_is_delivered() {
    let mut registry = Responses::new();
    registry.add(ok(7), 900);
    let seen = registry.change_count();
    let call = PendingCall::begin(&mut registry, 7, 1000, 10000);
    assert!(!registry.changed_since(seen));
    assert_eq!(call.poll(&mut registry, 1000), WaitStep::Matched(ok(7)));
}

#[test]
fn a_late_response_does_not_stay() {
    let mut registry = Responses::with_grace(2000);
    let call = PendingCall::begin(&mut registry, 7, 0, 1000);
    assert_eq!(call.poll(&mut registry, 1000), WaitStep::TimedOut);
    registry.add(ok(7), 1500);
    assert_eq!(registry.len(), 1);
    registry.evict(3499);
    assert_eq!(registry.len(), 1);
    registry.evict(3500);
    assert_eq!(registry.len(), 0);
}

#[test]
fn an_abandoned_wait_does_not_stay() {
    let mut registry = Responses::with_grace(100);
    let _gone = PendingCall::begin(&mut registry, 7, 0, 1000);
    registry.evict(1100);
    registry.add(ok(7), 1200);
    assert_eq!(registry.evict(1299), 0);
    assert_eq!(registry.evict(1300), 1);
}

#[test]
fn steps_map_to_states_and_results() {
    assert_eq!(WaitStep::Matched(ok(1)).call_state(), CallState::Matched);
    assert_eq!(WaitStep::TimedOut.call_state(), CallState::TimedOut);
    assert_eq!(WaitStep::Closed.call_state(), CallState::Closed);
    assert_eq!(WaitStep::Wait(5).call_state(), CallState::Sent);
    assert!(CallState::Matched.ended());
    assert!(CallState::TimedOut.ended());
    assert!(CallState::Closed.ended());
    assert!(!CallState::Sent.ended());
    assert!(!CallState::Idle.ended());
    assert_eq!(WaitStep::Matched(ok(1)).into_result(), Some(Ok(ok(1))));
    assert_eq!(WaitStep::Closed.into_result(), Some(Err(DeviceError::ConnectionClosed)));
    assert_eq!(WaitStep::Wait(5).into_result(), None);
}

#[test]
fn errors_are_described_and_told_apart() {
    let all = [
        DeviceError::ConnectFailed,
        DeviceError::IoFailure,
        DeviceError::ProtocolError,
        DeviceError::Timeout,
        DeviceError::ConnectionClosed,
    ];
    let fatal: Vec<bool> = all.iter().map(|error| error.fatal()).collect();
    assert_eq!(fatal, vec![true, true, false, false, true]);
    let texts: std::collections::HashSet<&str> = all.iter().map(|error| error.describe()).collect();
    assert_eq!(texts.len(), 5);
    assert_eq!(DeviceError::Timeout.describe(), "no response arrived before the deadline");
}

#[test]
fn the_listener_stores_responses_and_hands_notifications_on() {
    let mut listener = Listener::new();
    let mut registry = Responses::new();
    assert_eq!(listener.current_state(), ListenerState::Reading);
    let delivery = listener.on_event(
        data("{\"id\":1,\"result\":[\"ok\"]}\r\n{\"method\":\"props\",\"params\":{\"rgb\":255}}\r\nnonsense\r\n{\"id\":2,"),
        &mut registry,
        10,
    );
    assert_eq!(delivery.action, ListenerAction::Read);
    assert_eq!(delivery.stored, 1);
    assert_eq!(delivery.discarded, 1);
    assert_eq!(delivery.notifications.len(), 1);
    assert_eq!(delivery.notifications[0].method, "props");
    assert_eq!(delivery.notifications[0].params, vec![(Property::Rgb, Json::Int(255))]);
    assert!(registry.contains(1));
    assert!(!registry.contains(2));
    let delivery = listener.on_event(data("\"result\":[\"off\"]}\r\n"), &mut registry, 20);
    assert_eq!(delivery.stored, 1);
    assert_eq!(delivery.discarded, 0);
    assert_eq!(
        registry.consume(2),
        Some(CommandResponse { id: 2, result: vec![CommandResult::Off], error: None })
    );
}

#[test]
fn a_malformed_frame_between_two_valid_frames_does_no_harm() {
    let mut listener = Listener::new();
    let mut registry = Responses::new();
    let delivery = listener.on_event(
        data("{\"id\":1,\"result\":[\"ok\"]}\r\n{\"id\":1,\"resu\r\n{\"id\":2,\"result\":[\"on\"]}\r\n"),
        &mut registry,
        0,
    );
    assert_eq!(delivery.action, ListenerAction::Read);
    assert_eq!(delivery.stored, 2);
    assert_eq!(delivery.discarded, 1);
    assert_eq!(listener.current_state(), ListenerState::Reading);
    assert_eq!(registry.consume(1), Some(ok(1)));
    assert_eq!(
        registry.consume(2),
        Some(CommandResponse { id: 2, result: vec![CommandResult::On], error: None })
    );
}

#[test]
fn nothing_to_read_means_a_pause() {
    let mut listener = Listener::new();
    let mut registry = Responses::with_grace(10);
    registry.add(ok(1), 0);
    let delivery = listener.on_event(ReadEvent::WouldBlock, &mut registry, 5);
    assert_eq!(
        delivery,
        Delivery { action: ListenerAction::Pause, stored: 0, notifications: vec![], discarded: 0 }
    );
    assert!(registry.contains(1));
    listener.on_event(ReadEvent::WouldBlock, &mut registry, 10);
    assert!(!registry.contains(1));
    assert_eq!(listener.current_state(), ListenerState::Reading);
    assert_eq!(registry.terminal_error(), None);
}

#[test]
fn the_end_of_the_stream_closes_the_registry() {
    let mut listener = Listener::new();
    let mut registry = Responses::new();
    let delivery = listener.on_event(ReadEvent::EndOfStream, &mut registry, 5);
    assert_eq!(delivery.action, ListenerAction::Stop);
    assert_eq!(listener.current_state(), ListenerState::Closed);
    assert_eq!(registry.terminal_error(), Some(DeviceError::ConnectionClosed));
}

#[test]
fn a_failed_read_closes_the_registry() {
    let mut listener = Listener::new();
    let mut registry = Responses::new();
    let delivery = listener.on_event(ReadEvent::Failed, &mut registry, 5);
    assert_eq!(delivery.action, ListenerAction::Stop);
    assert_eq!(listener.current_state(), ListenerState::Failed);
    assert_eq!(registry.terminal_error(), Some(DeviceError::IoFailure));
}

#[test]
fn a_listener_that_has_ended_takes_in_nothing() {
    let mut listener = Listener::new();
    let mut registry = Responses::new();
    listener.on_event(ReadEvent::Failed, &mut registry, 5);
    let changes = registry.change_count();
    for event in [
        data("{\"id\":1,\"result\":[\"ok\"]}\r\n"),
        ReadEvent::WouldBlock,
        ReadEvent::EndOfStream,
        ReadEvent::Failed,
    ] {
        let delivery = listener.on_event(event, &mut registry, 6);
        assert_eq!(
            delivery,
            Delivery { action: ListenerAction::Stop, stored: 0, notifications: vec![], discarded: 0 }
        );
    }
    assert_eq!(listener.current_state(), ListenerState::Failed);
    assert_eq!(registry.len(), 0);
    assert_eq!(registry.change_count(), changes);
    assert_eq!(registry.terminal_error(), Some(DeviceError::IoFailure));
}

#[test]
fn stopping_closes_a_listener_that_reads() {
    let mut listener = Listener::new();
    listener.stop();
    assert_eq!(listener.current_state(), ListenerState::Closed);
    let mut failed = Listener::new();
    failed.on_event(ReadEvent::Failed, &mut Responses::new(), 0);
    failed.stop();
    assert_eq!(failed.current_state(), ListenerState::Failed);
}

#[test]
fn a_new_device_has_its_address_and_the_defaults() {
    let device = Device::new_with_port("192.168.100.5", 1234);
    assert_eq!(device.ip(), "192.168.100.5");
    assert_eq!(device.port(), 1234);
    assert_eq!(device.timeout(), DEFAULT_TIMEOUT);
    assert_eq!(device.terminal_error(), None);
    assert_eq!(device.stored(), 0);
    let device = Device::new("10.0.0.1");
    assert_eq!(device.port(), DEFAULT_PORT);
    assert_eq!(DEFAULT_PORT, 55443);
    assert_eq!(DEFAULT_TIMEOUT, 10000);
}

#[test]
fn a_new_device_numbers_its_requests_from_a_random_start() {
    let mut device = Device::new("10.0.0.1");
    let first = device.toggle(0).unwrap().call.id;
    assert!(15 <= first && first < 1500);
    assert_eq!(device.toggle(0).unwrap().call.id, first + 1);
}

#[test]
fn a_request_gets_its_response() {
    let mut device = Device::with_first_id("192.168.100.5", DEFAULT_PORT, 7);
    let sent = device.toggle(1000).unwrap();
    assert_eq!(sent.frame, b"{\"id\":7,\"method\":\"toggle\",\"params\":[]}\r\n".to_vec());
    assert_eq!(sent.call, PendingCall { id: 7, deadline: 11000 });
    assert_eq!(device.poll(&sent.call, 1000), WaitStep::Wait(10000));
    let seen = device.change_count();
    let delivery = device.receive(data("{\"id\":7,\"result\":[\"ok\"],\"error\":null}\r\n"), 1200);
    assert_eq!(delivery.stored, 1);
    assert!(device.changed_since(seen));
    match device.poll(&sent.call, 1201) {
        WaitStep::Matched(response) => {
            assert_eq!(response.id, 7);
            assert_eq!(response.result, vec![CommandResult::Okay]);
            assert_eq!(response.error, None);
        }
        other => panic!("not matched: {:?}", other),
    }
    assert_eq!(device.stored(), 0);
}

#[test]
fn a_response_for_another_identifier_does_not_disturb_a_call() {
    let mut device = Device::with_first_id("192.168.100.5", DEFAULT_PORT, 7);
    let sent = device.power_on(0).unwrap();
    assert_eq!(sent.call.id, 7);
    let delivery = device.receive(
        data("{\"id\":3,\"result\":[\"off\"]}\r\n{\"id\":7,\"result\":[\"on\"],\"error\":null}\r\n"),
        100,
    );
    assert_eq!(delivery.stored, 2);
    assert_eq!(
        device.poll(&sent.call, 101),
        WaitStep::Matched(CommandResponse { id: 7, result: vec![CommandResult::On], error: None })
    );
    assert_eq!(device.stored(), 1);
    device.receive(ReadEvent::WouldBlock, 100 + DEFAULT_GRACE);
    assert_eq!(device.stored(), 0);
}

#[test]
fn a_call_woken_for_another_identifier_goes_on_waiting() {
    let mut device = Device::with_first_id("192.168.100.5", DEFAULT_PORT, 7);
    let sent = device.power_off(0).unwrap();
    device.receive(data("{\"id\":3,\"result\":[\"ok\"]}\r\n"), 100);
    assert_eq!(device.poll(&sent.call, 101), WaitStep::Wait(9899));
    device.receive(data("{\"id\":7,\"result\":[\"ok\"]}\r\n"), 200);
    assert_eq!(device.poll(&sent.call, 201), WaitStep::Matched(ok(7)));
}

#[test]
fn a_closed_connection_ends_a_waiting_call() {
    let mut device = Device::with_first_id("192.168.100.5", DEFAULT_PORT, 7);
    let sent = device.toggle(0).unwrap();
    assert_eq!(device.poll(&sent.call, 1), WaitStep::Wait(9999));
    device.close(DeviceError::ConnectionClosed);
    let delivery = device.receive(data("{\"id\":7,\"result\":[\"ok\"],\"error\":null}\r\n"), 2);
    assert_eq!(delivery.action, ListenerAction::Stop);
    assert_eq!(delivery.stored, 0);
    assert_eq!(device.poll(&sent.call, 3), WaitStep::Closed);
    assert_eq!(device.poll(&sent.call, 20000), WaitStep::Closed);
    assert_eq!(device.terminal_error(), Some(DeviceError::ConnectionClosed));
}

#[test]
fn the_peer_closing_the_stream_ends_waiting_and_later_calls() {
    let mut device = Device::with_first_id("192.168.100.5", DEFAULT_PORT, 7);
    let sent = device.toggle(0).unwrap();
    let seen = device.change_count();
    let delivery = device.receive(ReadEvent::EndOfStream, 5);
    assert_eq!(delivery.action, ListenerAction::Stop);
    assert!(device.changed_since(seen));
    assert_eq!(device.poll(&sent.call, 6).into_result(), Some(Err(DeviceError::ConnectionClosed)));
    assert_eq!(device.toggle(7), Err(DeviceError::ConnectionClosed));
    assert_eq!(device.set_rgb(1, 2, 3, 7), Err(DeviceError::ConnectionClosed));
}

#[test]
fn a_failed_write_closes_the_connection() {
    let mut device = Device::with_first_id("192.168.100.5", DEFAULT_PORT, 7);
    let sent = device.toggle(0).unwrap();
    device.close(DeviceError::IoFailure);
    assert_eq!(device.terminal_error(), Some(DeviceError::IoFailure));
    assert_eq!(device.poll(&sent.call, 1), WaitStep::Closed);
    assert_eq!(device.power_on(2), Err(DeviceError::ConnectionClosed));
}

#[test]
fn a_response_that_arrived_before_the_close_is_still_delivered() {
    let mut device = Device::with_first_id("192.168.100.5", DEFAULT_PORT, 7);
    let sent = device.toggle(0).unwrap();
    device.receive(data("{\"id\":7,\"result\":[\"ok\"]}\r\n"), 1);
    device.receive(ReadEvent::EndOfStream, 2);
    assert_eq!(device.poll(&sent.call, 3), WaitStep::Matched(ok(7)));
    assert_eq!(device.poll(&sent.call, 4), WaitStep::Closed);
}

#[test]
fn a_call_times_out_and_its_late_response_is_dropped() {
    let mut device = Device::with_first_id("192.168.100.5", DEFAULT_PORT, 7);
    device.set_timeout(1000);
    let sent = device.toggle(0).unwrap();
    assert_eq!(sent.call.deadline, 1000);
    assert_eq!(device.poll(&sent.call, 999), WaitStep::Wait(1));
    assert_eq!(device.poll(&sent.call, 1000).into_result(), Some(Err(DeviceError::Timeout)));
    device.receive(data("{\"id\":7,\"result\":[\"ok\"]}\r\n"), 1500);
    assert_eq!(device.stored(), 1);
    device.receive(ReadEvent::WouldBlock, 1500 + DEFAULT_GRACE - 1);
    assert_eq!(device.stored(), 1);
    device.receive(ReadEvent::WouldBlock, 1500 + DEFAULT_GRACE);
    assert_eq!(device.stored(), 0);
}

#[test]
fn many_calls_each_get_their_own_response() {
    let mut device = Device::with_first_id("192.168.100.5", DEFAULT_PORT, 100);
    let mut calls = Vec::new();
    for n in 0..20 {
        let sent = device.execute_method(Method::SetBright(n + 1, None, None), 0).unwrap();
        assert_eq!(sent.call.id, 100 + n);
        calls.push(sent.call);
    }
    let mut stream = String::new();
    for n in (0..20).rev() {
        let marker = if n % 2 == 0 { "on" } else { "off" };
        stream.push_str(&format!("{{\"id\":{},\"result\":[\"{}\"]}}\r\n", 100 + n, marker));
    }
    let (first, second) = stream.split_at(stream.len() / 2 + 3);
    assert_eq!(device.receive(data(first), 10).stored + device.receive(data(second), 11).stored, 20);
    for (n, call) in calls.iter().enumerate() {
        let marker = if n % 2 == 0 { CommandResult::On } else { CommandResult::Off };
        assert_eq!(
            device.poll(call, 12),
            WaitStep::Matched(CommandResponse { id: 100 + n as i32, result: vec![marker], error: None })
        );
    }
    assert_eq!(device.stored(), 0);
}

#[test]
fn the_convenience_calls_send_what_they_say() {
    let mut device = Device::with_first_id("192.168.100.5", DEFAULT_PORT, 1);
    let text = |frame: Vec<u8>| String::from_utf8(frame).unwrap();
    assert_eq!(text(device.set_rgb(255, 0, 0, 0).unwrap().frame), "{\"id\":1,\"method\":\"set_rgb\",\"params\":[16711680]}\r\n");
    assert_eq!(text(device.set_bg_rgb(0, 0, 1, 0).unwrap().frame), "{\"id\":2,\"method\":\"bg_set_rgb\",\"params\":[1]}\r\n");
    assert_eq!(text(device.toggle(0).unwrap().frame), "{\"id\":3,\"method\":\"toggle\",\"params\":[]}\r\n");
    assert_eq!(text(device.power_on(0).unwrap().frame), "{\"id\":4,\"method\":\"set_power\",\"params\":[\"on\"]}\r\n");
    assert_eq!(text(device.power_off(0).unwrap().frame), "{\"id\":5,\"method\":\"set_power\",\"params\":[\"off\"]}\r\n");
    assert_eq!(
        text(device.execute_method(Method::GetProps(vec![Property::Power, Property::Name]), 0).unwrap().frame),
        "{\"id\":6,\"method\":\"get_prop\",\"params\":[\"power\",\"name\"]}\r\n"
    );
}

#[test]
fn a_command_of_ones_own_keeps_its_identifier() {
    let mut device = Device::with_first_id("192.168.100.5", DEFAULT_PORT, 1);
    let command = apyee::command::Command::new(77, Method::SetDefault);
    let sent = device.execute_command(&command, 5).unwrap();
    assert_eq!(sent.call, PendingCall { id: 77, deadline: 5 + DEFAULT_TIMEOUT });
    assert_eq!(sent.frame, b"{\"id\":77,\"method\":\"set_default\",\"params\":[]}\r\n".to_vec());
    assert_eq!(device.toggle(5).unwrap().call.id, 1);
}

#[test]
fn an_error_response_reaches_its_call() {
    let mut device = Device::with_first_id("192.168.100.5", DEFAULT_PORT, 7);
    let sent = device.toggle(0).unwrap();
    device.receive(
        data("{\"id\":7,\"result\":[],\"error\":{\"code\":-5000,\"message\":\"general error\"}}\r\n"),
        1,
    );
    assert_eq!(
        device.poll(&sent.call, 2),
        WaitStep::Matched(CommandResponse {
            id: 7,
            result: vec![],
            error: Some(CommandResponseError { code: -5000, message: "general error".to_string() }),
        })
    );
}
