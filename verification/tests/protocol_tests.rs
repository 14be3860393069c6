use setpoint_client::device::DeviceState;
use setpoint_client::protocol::{
    dispatch, handle_command, Command, IncomingCommand, Reaction, Rejection, Response,
};
use setpoint_client::wire::{append_decimal, register_line, CLIENT_UUID};

fn incoming(tag: &str, id: Option<u32>, value: Option<u32>) -> IncomingCommand {
    IncomingCommand { cmd_type: tag.to_string(), id, value }
}

#[test]
fn device_state_starts_at_zero() {
    assert_eq!(DeviceState::new().setpoint(), 0);
}

#[test]
fn store_accepts_the_whole_range_and_nothing_above() {
    let mut state = DeviceState::new();
    assert!(state.store(0));
    assert_eq!(state.setpoint(), 0);
    assert!(state.store(100));
    assert_eq!(state.setpoint(), 100);
    assert!(!state.store(101));
    assert_eq!(state.setpoint(), 100);
    assert!(!state.store(256));
    assert_eq!(state.setpoint(), 100);
    assert!(!state.store(u32::MAX));
    assert_eq!(state.setpoint(), 100);
}

#[test]
fn classify_knows_the_three_tags() {
    assert_eq!(
        incoming("set_value", Some(1), Some(2)).classify(),
        Command::SetValue { id: 1, value: Some(2) }
    );
    assert_eq!(
        incoming("set_value", Some(1), None).classify(),
        Command::SetValue { id: 1, value: None }
    );
    assert_eq!(incoming("get_value", Some(3), None).classify(), Command::GetValue { id: 3 });
    assert_eq!(incoming("get_value", Some(3), Some(9)).classify(), Command::GetValue { id: 3 });
    assert_eq!(incoming("calibrate", Some(4), None).classify(), Command::Calibrate { id: 4 });
}

#[test]
fn classify_gives_unknown_for_other_tags_and_missing_ids() {
    assert_eq!(incoming("reboot", Some(1), Some(2)).classify(), Command::Unknown);
    assert_eq!(incoming("", Some(1), None).classify(), Command::Unknown);
    assert_eq!(incoming("SET_VALUE", Some(1), Some(2)).classify(), Command::Unknown);
    assert_eq!(incoming("set_value ", Some(1), Some(2)).classify(), Command::Unknown);
    assert_eq!(incoming("set_value", None, Some(2)).classify(), Command::Unknown);
    assert_eq!(incoming("get_value", None, None).classify(), Command::Unknown);
    assert_eq!(incoming("calibrate", None, None).classify(), Command::Unknown);
}

#[test]
fn set_value_in_range_is_stored_and_read_back() {
    for value in 0..=100u32 {
        let mut state = DeviceState::new();
        let ack = handle_command(&incoming("set_value", Some(7), Some(value)), &mut state);
        assert_eq!(ack, Reaction::Reply(Response::Ack { id: 7 }));
        let got = handle_command(&incoming("get_value", Some(8), None), &mut state);
        assert_eq!(got, Reaction::Reply(Response::Value { id: 8, value: value as u8 }));
    }
}

#[test]
fn set_value_out_of_range_is_refused_and_changes_nothing() {
    for value in [101u32, 250, 255, 256, 356, 65_536, u32::MAX] {
        let mut state = DeviceState::new();
        assert!(state.store(42));
        let refused = handle_command(&incoming("set_value", Some(9), Some(value)), &mut state);
        assert_eq!(
            refused,
            Reaction::Reply(Response::Error { id: 9, message: Rejection::ValueOutOfRange })
        );
        let got = handle_command(&incoming("get_value", Some(10), None), &mut state);
        assert_eq!(got, Reaction::Reply(Response::Value { id: 10, value: 42 }));
    }
}

#[test]
fn set_value_without_value_is_a_missing_value_error() {
    let mut state = DeviceState::new();
    assert!(state.store(5));
    let reaction = handle_command(&incoming("set_value", Some(3), None), &mut state);
    assert_eq!(
        reaction,
        Reaction::Reply(Response::Error { id: 3, message: Rejection::MissingValue })
    );
    assert_eq!(state.setpoint(), 5);
}

#[test]
fn commands_without_id_get_no_response() {
    let mut state = DeviceState::new();
    assert!(state.store(5));
    for tag in ["get_value", "calibrate", "set_value"] {
        assert_eq!(handle_command(&incoming(tag, None, None), &mut state), Reaction::Silent);
        assert_eq!(handle_command(&incoming(tag, None, Some(7)), &mut state), Reaction::Silent);
    }
    assert_eq!(state.setpoint(), 5);
}

#[test]
fn unknown_tag_gets_no_response() {
    let mut state = DeviceState::new();
    assert_eq!(
        handle_command(&incoming("register", Some(1), Some(50)), &mut state),
        Reaction::Silent
    );
    assert_eq!(state.setpoint(), 0);
}

#[test]
fn calibrate_runs_the_actuator_before_the_ack() {
    let mut state = DeviceState::new();
    assert!(state.store(77));
    assert_eq!(
        handle_command(&incoming("calibrate", Some(11), None), &mut state),
        Reaction::CalibrateThenReply(Response::Ack { id: 11 })
    );
    assert_eq!(state.setpoint(), 77);
}

#[test]
fn dispatch_of_unknown_is_silent() {
    let mut state = DeviceState::new();
    assert_eq!(dispatch(Command::Unknown, &mut state), Reaction::Silent);
    assert_eq!(
        dispatch(Command::SetValue { id: 1, value: Some(100) }, &mut state),
        Reaction::Reply(Response::Ack { id: 1 })
    );
    assert_eq!(state.setpoint(), 100);
}

#[test]
fn ack_line_is_exact() {
    assert_eq!(Response::Ack { id: 7 }.to_line(), "{\"type\":\"ack\",\"id\":7,\"ok\":true}\n");
    assert_eq!(Response::Ack { id: 7 }.to_json(), "{\"type\":\"ack\",\"id\":7,\"ok\":true}");
}

#[test]
fn value_line_is_exact() {
    assert_eq!(
        Response::Value { id: 8, value: 42 }.to_line(),
        "{\"type\":\"value\",\"id\":8,\"value\":42}\n"
    );
    assert_eq!(
        Response::Value { id: 0, value: 0 }.to_line(),
        "{\"type\":\"value\",\"id\":0,\"value\":0}\n"
    );
    assert_eq!(
        Response::Value { id: u32::MAX, value: 100 }.to_line(),
        "{\"type\":\"value\",\"id\":4294967295,\"value\":100}\n"
    );
}

#[test]
fn error_lines_are_exact() {
    assert_eq!(
        Response::Error { id: 9, message: Rejection::ValueOutOfRange }.to_line(),
        "{\"type\":\"error\",\"id\":9,\"message\":\"value out of range 0..100\"}\n"
    );
    assert_eq!(
        Response::Error { id: 1000, message: Rejection::MissingValue }.to_line(),
        "{\"type\":\"error\",\"id\":1000,\"message\":\"missing value\"}\n"
    );
    assert_eq!(Rejection::ValueOutOfRange.text(), "value out of range 0..100");
    assert_eq!(Rejection::MissingValue.text(), "missing value");
}

#[test]
fn register_line_carries_the_identity_token() {
    assert_eq!(
        register_line(CLIENT_UUID),
        "{\"type\":\"register\",\"uuid\":\"8a3a3b0e-10b0-4f5e-bb14-7eac9ced0001\"}\n"
    );
    assert_eq!(register_line("x"), "{\"type\":\"register\",\"uuid\":\"x\"}\n");
}

#[test]
fn decimal_numerals_match_the_standard_ones() {
    for n in [0u32, 1, 9, 10, 11, 99, 100, 101, 255, 1000, 65_535, 1_000_000, 4_294_967_295] {
        let mut out = String::from("n=");
        append_decimal(&mut out, n);
        assert_eq!(out, format!("n={}", n));
    }
}

#[test]
fn scenario_set_then_get() {
    let mut state = DeviceState::new();
    let first = handle_command(&incoming("set_value", Some(7), Some(42)), &mut state);
    match first {
        Reaction::Reply(r) => assert_eq!(r.to_line(), "{\"type\":\"ack\",\"id\":7,\"ok\":true}\n"),
        other => panic!("unexpected reaction {:?}", other),
    }
    let second = handle_command(&incoming("get_value", Some(8), None), &mut state);
    match second {
        Reaction::Reply(r) => {
            assert_eq!(r.to_line(), "{\"type\":\"value\",\"id\":8,\"value\":42}\n")
        }
        other => panic!("unexpected reaction {:?}", other),
    }
}

#[test]
fn scenario_out_of_range() {
    let mut state = DeviceState::new();
    let reaction = handle_command(&incoming("set_value", Some(9), Some(250)), &mut state);
    match reaction {
        Reaction::Reply(r) => assert_eq!(
            r.to_line(),
            "{\"type\":\"error\",\"id\":9,\"message\":\"value out of range 0..100\"}\n"
        ),
        other => panic!("unexpected reaction {:?}", other),
    }
    assert_eq!(state.setpoint(), 0);
}
