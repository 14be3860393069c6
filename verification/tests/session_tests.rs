use setpoint_client::protocol::IncomingCommand;
use setpoint_client::session::{
    server, Endpoint, Phase, SessionAction, SessionEvent, SessionState, TcpClient,
    INTER_ATTEMPT_DELAY_MS, LINE_CAPACITY, RECONNECT_DELAY_MS,
};

const REGISTER: &str = "{\"type\":\"register\",\"uuid\":\"8a3a3b0e-10b0-4f5e-bb14-7eac9ced0001\"}\n";

fn cmd(tag: &str, id: Option<u32>, value: Option<u32>) -> SessionEvent {
    SessionEvent::Decoded(Some(IncomingCommand { cmd_type: tag.to_string(), id, value }))
}

fn received(bytes: &[u8]) -> SessionEvent {
    SessionEvent::Received(bytes.to_vec())
}

fn send(line: &str) -> Option<SessionAction> {
    Some(SessionAction::Send(line.to_string()))
}

fn decode(line: &str) -> Option<SessionAction> {
    Some(SessionAction::Decode(line.to_string()))
}

fn serving() -> TcpClient {
    let mut client = TcpClient::new();
    assert_eq!(client.step(SessionEvent::Start), Some(SessionAction::Wait { ms: 1000 }));
    assert_eq!(client.step(SessionEvent::Elapsed), Some(SessionAction::Connect(server())));
    assert_eq!(client.step(SessionEvent::Connected), send(REGISTER));
    assert_eq!(client.step(SessionEvent::Sent), Some(SessionAction::Receive));
    client
}

#[test]
fn the_constants_are_the_documented_ones() {
    assert_eq!(INTER_ATTEMPT_DELAY_MS, 1000);
    assert_eq!(RECONNECT_DELAY_MS, 2000);
    assert_eq!(LINE_CAPACITY, 512);
    assert_eq!(server(), Endpoint { a: 192, b: 168, c: 178, d: 21, port: 9000 });
}

#[test]
fn a_new_client_is_idle_with_setpoint_zero() {
    let client = TcpClient::new();
    assert_eq!(client.phase(), Phase::Idle);
    assert_eq!(client.state(), SessionState::Idle);
    assert_eq!(client.cached_value(), 0);
}

#[test]
fn the_client_connects_registers_and_serves() {
    let mut client = TcpClient::new();
    assert_eq!(client.step(SessionEvent::Start), Some(SessionAction::Wait { ms: 1000 }));
    assert_eq!(client.state(), SessionState::Idle);
    assert_eq!(client.step(SessionEvent::Elapsed), Some(SessionAction::Connect(server())));
    assert_eq!(client.state(), SessionState::Connecting);
    assert_eq!(client.step(SessionEvent::Connected), send(REGISTER));
    assert_eq!(client.state(), SessionState::Registering);
    assert_eq!(client.step(SessionEvent::Sent), Some(SessionAction::Receive));
    assert_eq!(client.state(), SessionState::Serving);
    assert_eq!(client.phase(), Phase::Reading);
}

#[test]
fn a_failed_connect_waits_and_starts_over_without_registering() {
    let mut client = TcpClient::new();
    assert_eq!(client.step(SessionEvent::Start), Some(SessionAction::Wait { ms: 1000 }));
    assert_eq!(client.step(SessionEvent::Elapsed), Some(SessionAction::Connect(server())));
    assert_eq!(client.step(SessionEvent::ConnectFailed), Some(SessionAction::Wait { ms: 2000 }));
    assert_eq!(client.state(), SessionState::Closing);
    assert_eq!(client.step(SessionEvent::Elapsed), Some(SessionAction::Wait { ms: 1000 }));
    assert_eq!(client.state(), SessionState::Idle);
    assert_eq!(client.step(SessionEvent::Elapsed), Some(SessionAction::Connect(server())));
}

#[test]
fn a_failed_register_starts_the_next_attempt() {
    let mut client = TcpClient::new();
    assert_eq!(client.step(SessionEvent::Start), Some(SessionAction::Wait { ms: 1000 }));
    assert_eq!(client.step(SessionEvent::Elapsed), Some(SessionAction::Connect(server())));
    assert_eq!(client.step(SessionEvent::Connected), send(REGISTER));
    assert_eq!(client.step(SessionEvent::SendFailed), Some(SessionAction::Wait { ms: 1000 }));
    assert_eq!(client.phase(), Phase::Pausing);
    assert_eq!(client.step(SessionEvent::Elapsed), Some(SessionAction::Connect(server())));
}

#[test]
fn scenario_set_value_then_get_value_over_the_session() {
    let mut client = serving();
    assert_eq!(
        client.step(received(b"{\"type\":\"set_value\",\"id\":7,\"value\":42}\n")),
        decode("{\"type\":\"set_value\",\"id\":7,\"value\":42}")
    );
    assert_eq!(
        client.step(cmd("set_value", Some(7), Some(42))),
        send("{\"type\":\"ack\",\"id\":7,\"ok\":true}\n")
    );
    assert_eq!(client.cached_value(), 42);
    assert_eq!(client.step(SessionEvent::Sent), Some(SessionAction::Receive));
    assert_eq!(
        client.step(received(b"{\"type\":\"get_value\",\"id\":8}\n")),
        decode("{\"type\":\"get_value\",\"id\":8}")
    );
    assert_eq!(
        client.step(cmd("get_value", Some(8), None)),
        send("{\"type\":\"value\",\"id\":8,\"value\":42}\n")
    );
    assert_eq!(client.step(SessionEvent::Sent), Some(SessionAction::Receive));
}

#[test]
fn scenario_out_of_range_over_the_session() {
    let mut client = serving();
    assert_eq!(
        client.step(received(b"{\"type\":\"set_value\",\"id\":9,\"value\":250}\n")),
        decode("{\"type\":\"set_value\",\"id\":9,\"value\":250}")
    );
    assert_eq!(
        client.step(cmd("set_value", Some(9), Some(250))),
        send("{\"type\":\"error\",\"id\":9,\"message\":\"value out of range 0..100\"}\n")
    );
    assert_eq!(client.cached_value(), 0);
}

#[test]
fn lines_of_one_read_are_dispatched_in_order() {
    let mut client = serving();
    assert_eq!(client.step(received(b"one\r\ntwo\n\xff\nthree\nfou")), decode("one"));
    assert_eq!(client.step(SessionEvent::Decoded(None)), decode("two"));
    assert_eq!(client.step(cmd("get_value", None, None)), decode("three"));
    assert_eq!(
        client.step(cmd("get_value", Some(1), None)),
        send("{\"type\":\"value\",\"id\":1,\"value\":0}\n")
    );
    assert_eq!(client.step(SessionEvent::Sent), Some(SessionAction::Receive));
    assert_eq!(client.step(received(b"r\n")), decode("four"));
}

#[test]
fn a_line_that_cannot_be_decoded_gets_no_response() {
    let mut client = serving();
    assert_eq!(client.step(received(b"not json\n")), decode("not json"));
    assert_eq!(client.step(SessionEvent::Decoded(None)), Some(SessionAction::Receive));
    assert_eq!(client.phase(), Phase::Reading);
}

#[test]
fn commands_without_id_get_no_response_over_the_session() {
    let mut client = serving();
    assert_eq!(client.step(received(b"{\"type\":\"calibrate\"}\n")), decode("{\"type\":\"calibrate\"}"));
    assert_eq!(client.step(cmd("calibrate", None, None)), Some(SessionAction::Receive));
}

#[test]
fn calibrate_is_awaited_before_the_ack() {
    let mut client = serving();
    assert_eq!(client.step(received(b"c\nd\n")), decode("c"));
    assert_eq!(client.step(cmd("calibrate", Some(5), None)), Some(SessionAction::Calibrate));
    assert_eq!(client.state(), SessionState::Serving);
    assert_eq!(client.step(received(b"more\n")), None);
    assert_eq!(client.step(SessionEvent::Sent), None);
    assert_eq!(
        client.step(SessionEvent::Calibrated),
        send("{\"type\":\"ack\",\"id\":5,\"ok\":true}\n")
    );
    assert_eq!(client.step(SessionEvent::Sent), decode("d"));
}

#[test]
fn an_oversized_line_is_lost_and_the_next_one_is_served() {
    let mut client = serving();
    let mut input = vec![b'{'; 513];
    assert_eq!(client.step(SessionEvent::Received(input.clone())), Some(SessionAction::Receive));
    input.push(b'\n');
    input.extend_from_slice(b"{\"type\":\"get_value\",\"id\":8}\n");
    assert_eq!(
        client.step(SessionEvent::Received(input)),
        decode("{\"type\":\"get_value\",\"id\":8}")
    );
}

#[test]
fn a_line_of_exactly_the_capacity_is_served() {
    let mut client = serving();
    let text = "y".repeat(512);
    let mut input = text.clone().into_bytes();
    input.push(b'\n');
    assert_eq!(client.step(SessionEvent::Received(input)), decode(&text));
}

#[test]
fn a_non_utf8_line_gets_no_response_and_the_next_one_is_served() {
    let mut client = serving();
    assert_eq!(client.step(received(b"\xff\xff\n")), Some(SessionAction::Receive));
    assert_eq!(
        client.step(received(b"\xfe\n{\"type\":\"get_value\",\"id\":1}\n")),
        decode("{\"type\":\"get_value\",\"id\":1}")
    );
}

#[test]
fn remote_close_reconnects_once_with_a_fresh_register() {
    let mut client = serving();
    assert_eq!(client.step(received(b"{\"type\":\"set_value\",\"id\":1,\"value\":33}\npart")),
        decode("{\"type\":\"set_value\",\"id\":1,\"value\":33}"));
    assert_eq!(
        client.step(cmd("set_value", Some(1), Some(33))),
        send("{\"type\":\"ack\",\"id\":1,\"ok\":true}\n")
    );
    assert_eq!(client.step(SessionEvent::Sent), Some(SessionAction::Receive));
    assert_eq!(client.step(received(b"")), Some(SessionAction::Wait { ms: 2000 }));
    assert_eq!(client.state(), SessionState::Closing);
    assert_eq!(client.step(SessionEvent::Connected), None);
    assert_eq!(client.step(SessionEvent::Elapsed), Some(SessionAction::Wait { ms: 1000 }));
    assert_eq!(client.step(SessionEvent::Elapsed), Some(SessionAction::Connect(server())));
    assert_eq!(client.step(SessionEvent::Elapsed), None);
    assert_eq!(client.step(SessionEvent::Connected), send(REGISTER));
    assert_eq!(client.step(SessionEvent::Sent), Some(SessionAction::Receive));
    assert_eq!(client.cached_value(), 33);
    assert_eq!(client.step(received(b"ial\n")), decode("ial"));
}

#[test]
fn a_read_error_ends_the_session() {
    let mut client = serving();
    assert_eq!(client.step(SessionEvent::ReceiveFailed), Some(SessionAction::Wait { ms: 2000 }));
    assert_eq!(client.state(), SessionState::Closing);
}

#[test]
fn a_failed_write_ends_the_session_at_once() {
    let mut client = serving();
    assert_eq!(client.step(received(b"a\nb\n")), decode("a"));
    assert_eq!(
        client.step(cmd("get_value", Some(2), None)),
        send("{\"type\":\"value\",\"id\":2,\"value\":0}\n")
    );
    assert_eq!(client.step(SessionEvent::SendFailed), Some(SessionAction::Wait { ms: 2000 }));
    assert_eq!(client.state(), SessionState::Closing);
    assert_eq!(client.step(SessionEvent::Decoded(None)), None);
    assert_eq!(client.step(SessionEvent::Elapsed), Some(SessionAction::Wait { ms: 1000 }));
    assert_eq!(client.step(SessionEvent::Elapsed), Some(SessionAction::Connect(server())));
    assert_eq!(client.step(SessionEvent::Connected), send(REGISTER));
    assert_eq!(client.step(SessionEvent::Sent), Some(SessionAction::Receive));
    assert_eq!(client.step(received(b"c\n")), decode("c"));
}

#[test]
fn events_nobody_waits_for_are_refused() {
    let mut client = TcpClient::new();
    for event in [
        SessionEvent::Elapsed,
        SessionEvent::Connected,
        SessionEvent::ConnectFailed,
        SessionEvent::Sent,
        SessionEvent::SendFailed,
        received(b"x\n"),
        SessionEvent::ReceiveFailed,
        SessionEvent::Decoded(None),
        cmd("set_value", Some(1), Some(2)),
        SessionEvent::Calibrated,
    ] {
        assert_eq!(client.step(event), None);
        assert_eq!(client.phase(), Phase::Idle);
        assert_eq!(client.cached_value(), 0);
    }
    let mut busy = serving();
    assert_eq!(busy.step(SessionEvent::Start), None);
    assert_eq!(busy.step(cmd("set_value", Some(1), Some(2))), None);
    assert_eq!(busy.cached_value(), 0);
    assert_eq!(busy.phase(), Phase::Reading);
}

#[test]
fn connect_register_and_serve_report_outcomes() {
    let mut client = TcpClient::new();
    assert_eq!(client.connect(true), None);
    assert_eq!(client.register(true), None);
    assert_eq!(client.serve(b"x\n".to_vec()), None);
    assert_eq!(client.step(SessionEvent::Start), Some(SessionAction::Wait { ms: 1000 }));
    assert_eq!(client.step(SessionEvent::Elapsed), Some(SessionAction::Connect(server())));
    assert_eq!(client.connect(false), Some(SessionAction::Wait { ms: 2000 }));
    assert_eq!(client.step(SessionEvent::Elapsed), Some(SessionAction::Wait { ms: 1000 }));
    assert_eq!(client.step(SessionEvent::Elapsed), Some(SessionAction::Connect(server())));
    assert_eq!(client.connect(true), send(REGISTER));
    assert_eq!(client.register(true), Some(SessionAction::Receive));
    assert_eq!(client.serve(b"x\n".to_vec()), decode("x"));
    assert_eq!(client.register(false), None);
    assert_eq!(client.phase(), Phase::Decoding);
    assert_eq!(client.serve(Vec::new()), None);
}
