use snowland::api::{
    dispatcher_start, ApiConnections, ApiRequest, DispatcherStart, InternalMessage, SnowlandAPIMessage,
    dispatcher_event_route, server_message_delivery, DispatcherEventRoute, IPCDispatcherState, PollRound,
    SnowlandAPIConnectionState, SnowlandAPIEvent, SnowlandAPIEvents, UiDelivery,
    IPC_DISPATCHER_WAKER_TOKEN,
};
use snowland::dart_structure::{
    structure_number_to_value, structure_to_value, value_to_key, value_to_structure, vec_convert_string,
    vec_num_convert_float, vec_num_convert_signed, vec_num_convert_unsigned, ChannelValue, Reply,
    Responder,
};
use snowland::protocol::{Configuration, ServerMessage, Structure, StructureNumber};

fn numbers(structures: &[Structure]) -> Vec<StructureNumber> {
    structures
        .iter()
        .map(|s| match s {
            Structure::Number(n) => *n,
            other => panic!("not a number: {:?}", other),
        })
        .collect()
}

#[test]
fn byte_lists_become_non_negative_numbers() {
    let converted = vec_num_convert_unsigned(vec![0, 7, 255]);
    assert_eq!(
        numbers(&converted),
        vec![StructureNumber::PosInt(0), StructureNumber::PosInt(7), StructureNumber::PosInt(255)]
    );
    assert!(vec_num_convert_unsigned(Vec::new()).is_empty());
}

#[test]
fn integer_lists_become_signed_numbers() {
    let converted = vec_num_convert_signed(vec![-3, 0, i64::MAX]);
    assert_eq!(
        numbers(&converted),
        vec![StructureNumber::NegInt(-3), StructureNumber::NegInt(0), StructureNumber::NegInt(i64::MAX)]
    );
}

#[test]
fn float_lists_keep_their_bits() {
    let converted = vec_num_convert_float(vec![1.5f64.to_bits(), (-0.25f64).to_bits()]);
    assert_eq!(
        numbers(&converted),
        vec![StructureNumber::Float(1.5f64.to_bits()), StructureNumber::Float((-0.25f64).to_bits())]
    );
}

#[test]
fn integer_lists_are_joined_with_commas() {
    assert_eq!(vec_convert_string(vec![]), "");
    assert_eq!(vec_convert_string(vec![42]), "42");
    assert_eq!(vec_convert_string(vec![1, -2, 300]), "1, -2, 300");
    let values = vec![5i64, -17, 0];
    let expected = values.iter().map(|v| v.to_string()).collect::<Vec<_>>().join(", ");
    assert_eq!(vec_convert_string(values), expected);
}

#[test]
fn poll_rounds_report_shutdown_last() {
    let mut round = PollRound::new();
    round.shutdown_requested();
    round.alive_listed(vec![2, 5]);
    round.connect_failed(7);
    round.shutdown_requested();
    let events = round.finish().into_inner();
    assert_eq!(events.len(), 3);
    assert!(matches!(&events[0], (0, SnowlandAPIEvent::AliveInstances(ids)) if ids == &vec![2, 5]));
    assert!(matches!(
        events[1],
        (7, SnowlandAPIEvent::ConnectionStateChanged(SnowlandAPIConnectionState::Disconnected))
    ));
    assert!(matches!(events[2], (0, SnowlandAPIEvent::Shutdown)));
}

#[test]
fn poll_rounds_without_shutdown_report_what_they_gathered() {
    let round = PollRound::new();
    assert!(round.finish().into_inner().is_empty());
    let mut round = PollRound::new();
    round.connect_failed(3);
    let events = round.finish().into_inner();
    assert_eq!(events.len(), 1);
    assert!(matches!(events[0], (3, SnowlandAPIEvent::ConnectionStateChanged(_))));
}

#[test]
fn only_failed_processing_drops_the_connection() {
    assert!(PollRound::drops_connection(true, false));
    assert!(!PollRound::drops_connection(true, true));
    assert!(!PollRound::drops_connection(false, false));
    assert!(!PollRound::drops_connection(false, true));
}

#[test]
fn dispatcher_events_go_to_the_connection_first() {
    assert_eq!(dispatcher_event_route(true, IPC_DISPATCHER_WAKER_TOKEN, true), DispatcherEventRoute::Ipc);
    assert_eq!(dispatcher_event_route(false, IPC_DISPATCHER_WAKER_TOKEN, true), DispatcherEventRoute::Request);
    assert_eq!(dispatcher_event_route(false, IPC_DISPATCHER_WAKER_TOKEN, false), DispatcherEventRoute::Unexpected);
    assert_eq!(dispatcher_event_route(false, 0x101, true), DispatcherEventRoute::Unexpected);
}

#[test]
fn host_messages_reach_the_user_interface() {
    let configuration = ServerMessage::UpdateConfiguration(Configuration { modules: Vec::new() });
    assert_eq!(server_message_delivery(&configuration), UiDelivery::Method("update_configuration"));
    assert_eq!(
        server_message_delivery(&ServerMessage::UpdateDisplays(Vec::new())),
        UiDelivery::Event("ipc_display_event")
    );
    assert_eq!(server_message_delivery(&ServerMessage::Heartbeat), UiDelivery::Nothing);
}

#[test]
fn dispatcher_runs_end_in_their_state() {
    let clean: IPCDispatcherState<String> = IPCDispatcherState::after_run(Ok(()));
    assert!(matches!(clean, IPCDispatcherState::NotRunning));
    let failed: IPCDispatcherState<String> = IPCDispatcherState::after_run(Err("broken".to_string()));
    assert!(matches!(failed, IPCDispatcherState::Errored(ref e) if e == "broken"));
}

#[test]
fn poll_events_convert_to_and_from_their_list() {
    let events = SnowlandAPIEvents::from(vec![(4, SnowlandAPIEvent::DispatchRuntimeEvent), (0, SnowlandAPIEvent::Shutdown)]);
    assert_eq!(events.event_count(), 2);
    assert_eq!(events.event_connection_id(0), 4);
    let list: Vec<(usize, SnowlandAPIEvent)> = events.into();
    assert!(matches!(list[1], (0, SnowlandAPIEvent::Shutdown)));
}

fn write_float(bits: u64) -> String {
    f64::from_bits(bits).to_string()
}

fn text(s: &str) -> String {
    s.to_string()
}

#[test]
fn structures_become_channel_values() {
    let structure = Structure::Object(vec![
        (text("a"), Structure::Array(vec![Structure::Number(StructureNumber::PosInt(3)), Structure::Null])),
        (text("b"), Structure::String(text("x"))),
        (text("c"), Structure::Number(StructureNumber::Float(2.5f64.to_bits()))),
        (text("d"), Structure::Bool(false)),
        (text("e"), Structure::Number(StructureNumber::PosInt(u64::MAX))),
    ]);
    assert_eq!(
        structure_to_value(structure),
        ChannelValue::Mapping(vec![
            (ChannelValue::String(text("a")), ChannelValue::List(vec![ChannelValue::I64(3), ChannelValue::Null])),
            (ChannelValue::String(text("b")), ChannelValue::String(text("x"))),
            (ChannelValue::String(text("c")), ChannelValue::F64(2.5f64.to_bits())),
            (ChannelValue::String(text("d")), ChannelValue::Bool(false)),
            (ChannelValue::String(text("e")), ChannelValue::I64(-1)),
        ])
    );
    assert_eq!(structure_number_to_value(StructureNumber::NegInt(-4)), ChannelValue::I64(-4));
}

#[test]
fn channel_values_are_written_as_keys() {
    assert_eq!(value_to_key(ChannelValue::Null, &write_float), "null");
    assert_eq!(value_to_key(ChannelValue::Bool(true), &write_float), "true");
    assert_eq!(value_to_key(ChannelValue::I64(-12), &write_float), "-12");
    assert_eq!(value_to_key(ChannelValue::F64(1.5f64.to_bits()), &write_float), "1.5");
    assert_eq!(value_to_key(ChannelValue::String(text("name")), &write_float), "name");
    assert_eq!(value_to_key(ChannelValue::U8List(vec![1, 255]), &write_float), "1, 255");
    assert_eq!(value_to_key(ChannelValue::I32List(vec![-1, 2]), &write_float), "-1, 2");
    assert_eq!(value_to_key(ChannelValue::I64List(vec![]), &write_float), "");
    assert_eq!(
        value_to_key(ChannelValue::F64List(vec![0.5f64.to_bits(), 2.0f64.to_bits()]), &write_float),
        "0.5, 2"
    );
    let nested = ChannelValue::Mapping(vec![
        (ChannelValue::String(text("k")), ChannelValue::List(vec![ChannelValue::I64(1), ChannelValue::Bool(false)])),
        (ChannelValue::I64(2), ChannelValue::Null),
    ]);
    assert_eq!(value_to_key(nested, &write_float), "k => 1, false, 2 => null");
}

#[test]
fn channel_values_become_structures() {
    let value = ChannelValue::Mapping(vec![
        (ChannelValue::I64(7), ChannelValue::U8List(vec![1, 2])),
        (ChannelValue::String(text("s")), ChannelValue::List(vec![ChannelValue::I64(5), ChannelValue::F64(0.25f64.to_bits())])),
        (ChannelValue::Bool(true), ChannelValue::I32List(vec![-3])),
    ]);
    match value_to_structure(value, &write_float) {
        Structure::Object(entries) => {
            assert_eq!(entries.len(), 3);
            assert_eq!(entries[0].0, "7");
            assert!(matches!(&entries[0].1, Structure::Array(a) if numbers(a) == vec![StructureNumber::PosInt(1), StructureNumber::PosInt(2)]));
            assert_eq!(entries[1].0, "s");
            assert!(matches!(&entries[1].1, Structure::Array(a) if numbers(a) == vec![StructureNumber::NegInt(5), StructureNumber::Float(0.25f64.to_bits())]));
            assert_eq!(entries[2].0, "true");
            assert!(matches!(&entries[2].1, Structure::Array(a) if numbers(a) == vec![StructureNumber::NegInt(-3)]));
        }
        other => panic!("not an object: {:?}", other),
    }
}

#[test]
fn structures_come_back_with_signed_numbers() {
    let structure = Structure::Array(vec![
        Structure::Number(StructureNumber::PosInt(5)),
        Structure::Object(vec![(text("x"), Structure::String(text("y")))]),
    ]);
    match value_to_structure(structure_to_value(structure), &write_float) {
        Structure::Array(items) => {
            assert!(matches!(items[0], Structure::Number(StructureNumber::NegInt(5))));
            assert!(matches!(&items[1], Structure::Object(e) if e.len() == 1 && e[0].0 == "x" && matches!(&e[0].1, Structure::String(s) if s == "y")));
        }
        other => panic!("not an array: {:?}", other),
    }
}

#[test]
fn method_calls_are_answered() {
    assert_eq!(Responder::new(text("greet")).ok(Ok(ChannelValue::I64(1))), Reply::Success(ChannelValue::I64(1)));
    assert_eq!(
        Responder::new(text("greet")).ok(Err(text("bad value"))),
        Reply::Failure {
            code: text("INVALID_RETURN_VALUE"),
            message: Some(text("Failed to convert the return value of method greet: bad value")),
            details: ChannelValue::String(text("greet")),
        }
    );
    assert_eq!(
        Responder::new(text("log")).failed("INVALID_ARGS", Some("no"), None),
        Reply::Failure { code: text("INVALID_ARGS"), message: Some(text("no")), details: ChannelValue::Null }
    );
    assert_eq!(
        Responder::new(text("log")).failed("X", None, Some(ChannelValue::Bool(true))),
        Reply::Failure { code: text("X"), message: None, details: ChannelValue::Bool(true) }
    );
    assert_eq!(
        Responder::new(text("run")).result(Err(text("it broke"))),
        Reply::Failure { code: text("EXECUTION_FAILED"), message: Some(text("it broke")), details: ChannelValue::Null }
    );
    assert_eq!(Responder::new(text("run")).result(Ok(Ok(ChannelValue::Null))), Reply::Success(ChannelValue::Null));
}

#[test]
fn run_loop_requests_change_events_and_connections() {
    let mut connections: ApiConnections<&str> = ApiConnections::new();
    let mut round = PollRound::new();
    assert!(matches!(round.handle_message(SnowlandAPIMessage::ListAlive, &mut connections), ApiRequest::ListAlive));
    assert!(matches!(round.handle_message(SnowlandAPIMessage::Connect(3), &mut connections), ApiRequest::Connect(3)));
    connections.opened(3, "three");
    connections.opened(1, "one");
    assert!(matches!(
        round.handle_message(SnowlandAPIMessage::Disconnect(3), &mut connections),
        ApiRequest::Close(Some("three"))
    ));
    assert!(matches!(round.handle_message(SnowlandAPIMessage::Disconnect(3), &mut connections), ApiRequest::Close(None)));
    assert!(matches!(round.handle_message(SnowlandAPIMessage::Shutdown, &mut connections), ApiRequest::Nothing));
    assert_eq!(connections.take(1), Some("one"));
    assert_eq!(connections.take(1), None);
    let events = round.finish().into_inner();
    assert_eq!(events.len(), 1);
    assert!(matches!(events[0], (0, SnowlandAPIEvent::Shutdown)));
}

#[test]
fn the_dispatcher_starts_or_ends_by_the_connection_attempt() {
    assert_eq!(dispatcher_start(true, false), DispatcherStart::Run);
    assert_eq!(dispatcher_start(false, true), DispatcherStart::FinishCleanly);
    assert_eq!(dispatcher_start(false, false), DispatcherStart::Fail);
    assert_eq!(InternalMessage::SendIPC(5).into_outgoing(), Some(5));
    assert_eq!(InternalMessage::<i32>::Shutdown.into_outgoing(), None);
}
