use snowland::api::{
    api_log_target, channel_log_target, IPCDispatcherState, LogLevel,
    SnowlandAPIConnectionState, SnowlandAPIEvent, SnowlandAPIEvents,
};
use snowland::call_handler::{plan_arm, ArgumentSource, CallHandlerArgumentAttribute};
use snowland::paint::{ColorComponents, PaintField, PaintFields, PaintSettingError};
use snowland::win32::{
    accept_outcome, completion_outcome, keeps_running_after, poll_event_step, route_window_message,
    start_outcome, window_answer, AcceptOutcome, IntegrationReply, OpenFailure, PipeConnection,
    PollEventStep, ReadProgress, ReadStep, TransferOutcome, WindowAnswer, WindowMessageRoute,
    WindowsPipeIo,
};
use snowland::ipc_buffer::DecodeOutcome;
use snowland::x11::{attribute_result, surface_size, GLXError, GLXFBConfigArray, XAtom};

#[test]
fn log_levels_are_read_by_name() {
    assert_eq!(LogLevel::from_name("trace"), LogLevel::Trace);
    assert_eq!(LogLevel::from_name("debug"), LogLevel::Debug);
    assert_eq!(LogLevel::from_name("info"), LogLevel::Info);
    assert_eq!(LogLevel::from_name("warn"), LogLevel::Warn);
    assert_eq!(LogLevel::from_name("error"), LogLevel::Error);
    assert_eq!(LogLevel::from_name("Trace"), LogLevel::Error);
    assert_eq!(LogLevel::from_name(""), LogLevel::Error);
    assert_eq!(api_log_target("settings"), "[[dart]]::settings");
    assert_eq!(channel_log_target("settings"), "{{dart}}::settings");
}

#[test]
fn argument_markers_are_read_by_name() {
    assert_eq!(CallHandlerArgumentAttribute::from_attr("engine"), Some(CallHandlerArgumentAttribute::Engine));
    assert_eq!(CallHandlerArgumentAttribute::from_attr("responder"), Some(CallHandlerArgumentAttribute::Responder));
    assert_eq!(CallHandlerArgumentAttribute::from_attr("derive"), None);
    assert!(CallHandlerArgumentAttribute::Engine < CallHandlerArgumentAttribute::Responder);
}

#[test]
fn api_events_keep_their_order_and_connections() {
    let events = SnowlandAPIEvents::new(vec![
        (0, SnowlandAPIEvent::AliveInstances(vec![1, 3])),
        (2, SnowlandAPIEvent::ConnectionStateChanged(SnowlandAPIConnectionState::Disconnected)),
        (0, SnowlandAPIEvent::Shutdown),
    ]);
    assert_eq!(events.event_count(), 3);
    assert_eq!(events.event_connection_id(1), 2);
    assert!(matches!(events.event_data(0), SnowlandAPIEvent::AliveInstances(v) if v == &vec![1, 3]));
    assert!(matches!(events.event_data(2), SnowlandAPIEvent::Shutdown));
    assert_eq!(events.into_inner().len(), 3);
}

#[test]
fn dispatcher_states_compare_without_their_errors() {
    let a: IPCDispatcherState<String> = IPCDispatcherState::Errored("one".into());
    let b: IPCDispatcherState<String> = IPCDispatcherState::Errored("two".into());
    assert!(a == b);
    assert!(a != IPCDispatcherState::Running);
    assert!(IPCDispatcherState::<String>::Running.is_running());
    assert!(!IPCDispatcherState::<String>::NotRunning.is_running());
}

#[test]
fn paint_fields_detect_duplicates_and_missing_fields() {
    let mut fields: PaintFields<[f32; 4], (f32, f32)> = PaintFields::new();
    assert_eq!(fields.accept_key(PaintField::Color), Ok(()));
    fields.set_color([1.0, 0.5, 0.25, 1.0]);
    assert_eq!(fields.accept_key(PaintField::Color), Err(PaintSettingError::DuplicateField(PaintField::Color)));
    fields.set_stroke(None);
    assert_eq!(fields.accept_key(PaintField::Stroke), Ok(()));
    fields.set_stroke(Some((2.0, 4.0)));
    assert_eq!(fields.accept_key(PaintField::Stroke), Err(PaintSettingError::DuplicateField(PaintField::Stroke)));
    fields.set_dither(true);
    assert!(matches!(fields.finish(), Err(PaintSettingError::MissingField(PaintField::AntiAlias))));

    let mut fields: PaintFields<u8, u8> = PaintFields::new();
    fields.set_anti_alias(true);
    assert!(matches!(fields.finish(), Err(PaintSettingError::MissingField(PaintField::Color))));

    let mut fields: PaintFields<u8, u8> = PaintFields::new();
    fields.set_color(9);
    fields.set_anti_alias(false);
    fields.set_dither(true);
    let parts = fields.finish().unwrap();
    assert_eq!((parts.color, parts.anti_alias, parts.dither, parts.stroke), (9, false, true, None));
}

#[test]
fn colors_need_four_components() {
    let mut color = ColorComponents::new();
    color.push(0.5f32);
    color.push(1.0);
    assert_eq!(color.count(), 2);
    assert_eq!(color.finish(), Err(2));
    let mut color = ColorComponents::new();
    for c in [0.1f32, 0.2, 0.3, 0.4] {
        color.push(c);
    }
    assert_eq!(color.finish(), Ok(vec![0.1, 0.2, 0.3, 0.4]));
}

#[test]
fn framebuffer_configurations_are_walked_in_order() {
    let array = GLXFBConfigArray::wrap(0x1000, vec![11, 22, 33], 7);
    assert_eq!(array.handle(), 0x1000);
    assert_eq!(array.count(), 3);
    assert_eq!(array.config_at(3), None);
    let mut iter = array.iter();
    assert_eq!(iter.size_hint(), (3, Some(3)));
    assert_eq!(iter.next().map(|c| c.handle()), Some(11));
    assert_eq!(iter.nth(1).map(|c| c.handle()), Some(33));
    assert_eq!(iter.size_hint(), (0, Some(0)));
    assert_eq!(iter.next(), None);
    assert_eq!(iter.last(), None);
    let mut iter = array.iter();
    assert_eq!(iter.nth(0).map(|c| c.handle()), Some(11));
    assert_eq!(iter.nth(5), None);
    assert_eq!(iter.next(), None);
    let mut iter = array.iter();
    iter.next();
    assert_eq!(iter.nth(0).map(|c| c.handle()), Some(22));
    assert_eq!(iter.next().map(|c| c.handle()), Some(33));
    assert_eq!(array.iter().last().map(|c| c.handle()), Some(33));
    let empty = GLXFBConfigArray::wrap(0x2000, Vec::new(), 7);
    assert_eq!(empty.iter().last(), None);
    assert_eq!(empty.iter().nth(0), None);
    let mut iter = array.iter();
    iter.next();
    assert_eq!(iter.count(), 2);
    let config = array.config_at(0).unwrap();
    assert_eq!(config.extend_lifetime(7), config);
}

#[test]
fn atoms_compare_by_id() {
    assert_eq!(XAtom::new(20, 1), XAtom::pixmap());
    assert_ne!(XAtom::any_property_type(), XAtom::pixmap());
    assert_eq!(XAtom::new(5, 1).handle(), 5);
    assert_eq!(XAtom::any_property_type().handle(), 0);
}

#[test]
fn attribute_queries_and_sizes_are_checked() {
    assert_eq!(attribute_result(0, 24, 5), Ok(24));
    assert_eq!(attribute_result(2, 0, 5), Err(GLXError::BadAttribute(5)));
    assert_eq!(attribute_result(7, 0, 5), Err(GLXError::GenericError(7)));
    assert_eq!(surface_size(1920, 1080), Some((1920, 1080)));
    assert_eq!(surface_size(i32::MAX as u64 + 1, 10), None);
}

#[test]
fn win32_results_are_interpreted() {
    assert_eq!(WindowsPipeIo::translate_open_error(5, 5, None), OpenFailure::Duplicated);
    assert_eq!(WindowsPipeIo::translate_open_error(2, 231, Some(2)), OpenFailure::Disconnected);
    assert_eq!(WindowsPipeIo::translate_open_error(87, 231, Some(2)), OpenFailure::Os(87));
    assert_eq!(accept_outcome(true, 0), AcceptOutcome::Connected);
    assert_eq!(accept_outcome(false, 997), AcceptOutcome::Pending);
    assert_eq!(accept_outcome(false, 535), AcceptOutcome::Connected);
    assert_eq!(accept_outcome(false, 232), AcceptOutcome::ClientVanished);
    assert_eq!(accept_outcome(false, 109), AcceptOutcome::Failed(109));
    assert_eq!(completion_outcome(false, 996), TransferOutcome::InProgress);
    assert_eq!(completion_outcome(true, 996), TransferOutcome::Completed);
    assert_eq!(start_outcome(false, 996), TransferOutcome::Failed(996));
    assert_eq!(route_window_message(0x81), WindowMessageRoute::CreateIntegration);
    assert_eq!(route_window_message(0x02), WindowMessageRoute::DestroyIntegration);
    assert_eq!(route_window_message(0x10), WindowMessageRoute::ToIntegration);
    assert!(!keeps_running_after(0x12));
    assert!(keeps_running_after(0x0F));
}

#[test]
fn pipe_servers_wait_for_a_client() {
    let mut server: PipeConnection<u8> = PipeConnection::new(true);
    assert!(server.is_server());
    assert!(!server.is_connected());
    assert!(server.accept_needed());
    assert_eq!(server.accept_result(AcceptOutcome::Pending), Ok(false));
    assert!(!server.is_connected());
    assert_eq!(server.accept_result(AcceptOutcome::Failed(109)), Err(109));
    assert_eq!(server.accept_result(AcceptOutcome::ClientVanished), Ok(false));
    assert_eq!(server.accept_result(AcceptOutcome::Connected), Ok(true));
    assert!(server.is_connected());
    assert!(!server.accept_needed());
}

#[test]
fn pipe_clients_start_connected_and_read() {
    let mut client: PipeConnection<u8> = PipeConnection::new(false);
    assert!(client.is_connected());
    assert_eq!(client.read_step(), ReadStep::StartRead);
    assert_eq!(client.read_result(start_outcome(false, 997), 0), ReadProgress::Wait);
    assert_eq!(client.read_step(), ReadStep::AwaitRead);
    assert_eq!(client.read_result(completion_outcome(false, 996), 0), ReadProgress::Wait);
    assert_eq!(client.read_result(completion_outcome(true, 0), 0), ReadProgress::Decode);
    assert_eq!(client.read_step(), ReadStep::StartRead);
    assert_eq!(client.read_result(start_outcome(false, 109), 0), ReadProgress::Failed(109));
    assert_eq!(client.read_step(), ReadStep::NotConnected);
}

/// Messages of one length byte and that many bytes; a length of 255 is invalid.
fn decode_one(bytes: &[u8]) -> DecodeOutcome<Vec<u8>, String> {
    if bytes.is_empty() {
        return DecodeOutcome::Incomplete;
    }
    let n = bytes[0] as usize;
    if n == 255 {
        return DecodeOutcome::Failed("bad length".to_string());
    }
    if bytes.len() < 1 + n {
        return DecodeOutcome::Incomplete;
    }
    DecodeOutcome::Decoded(bytes[1..1 + n].to_vec(), 1 + n)
}

fn pipe_receive(connection: &mut PipeConnection<u8>, data: &[u8]) {
    let window = connection.transfer_window();
    assert!(window.len() >= 1024);
    window[..data.len()].copy_from_slice(data);
    assert_eq!(connection.read_result(TransferOutcome::Completed, data.len()), ReadProgress::Decode);
}

#[test]
fn pipe_reads_land_in_the_receive_buffer() {
    let mut client: PipeConnection<u8> = PipeConnection::new(false);
    pipe_receive(&mut client, &[2, 7]);
    assert_eq!(client.decode_available(decode_one), Ok(Vec::<Vec<u8>>::new()));
    pipe_receive(&mut client, &[8, 1, 9]);
    assert_eq!(client.decode_available(decode_one), Ok(vec![vec![7, 8], vec![9]]));
    assert_eq!(client.decode_available(decode_one), Ok(Vec::<Vec<u8>>::new()));
}

#[test]
fn every_disconnect_discards_the_received_bytes() {
    let mut client: PipeConnection<u8> = PipeConnection::new(false);
    pipe_receive(&mut client, &[3, 1]);
    client.disconnect();
    assert!(!client.is_connected());
    assert_eq!(client.decode_available(decode_one), Ok(Vec::<Vec<u8>>::new()));

    let mut client: PipeConnection<u8> = PipeConnection::new(false);
    pipe_receive(&mut client, &[3, 1]);
    assert_eq!(client.write_result(TransferOutcome::Failed(232), 1), Err(232));
    assert_eq!(client.decode_available(decode_one), Ok(Vec::<Vec<u8>>::new()));

    let mut client: PipeConnection<u8> = PipeConnection::new(false);
    pipe_receive(&mut client, &[3, 1]);
    assert_eq!(client.read_result(TransferOutcome::Failed(109), 0), ReadProgress::Failed(109));
    assert_eq!(client.decode_available(decode_one), Ok(Vec::<Vec<u8>>::new()));

    let mut server: PipeConnection<u8> = PipeConnection::new(true);
    assert_eq!(server.accept_result(AcceptOutcome::ClientVanished), Ok(false));
    assert_eq!(server.decode_available(decode_one), Ok(Vec::<Vec<u8>>::new()));
}

#[test]
fn a_failed_earlier_write_drops_the_peer() {
    let mut client: PipeConnection<u8> = PipeConnection::new(false);
    assert_eq!(client.write_result(TransferOutcome::InProgress, 1), Ok(()));
    assert_eq!(client.write_result(TransferOutcome::InProgress, 2), Ok(()));
    pipe_receive(&mut client, &[4, 1]);
    assert_eq!(client.pending_write_result(1, TransferOutcome::Failed(233)), Err(233));
    assert!(!client.is_connected());
    assert_eq!(client.pending_write_count(), 0);
    assert_eq!(client.read_step(), ReadStep::NotConnected);
    assert_eq!(client.decode_available(decode_one), Ok(Vec::<Vec<u8>>::new()));
}

#[test]
fn poll_events_end_read_or_write_the_pipe() {
    assert_eq!(poll_event_step(true, true, false, true, true), PollEventStep::ReopenPipe);
    assert_eq!(poll_event_step(false, false, true, true, true), PollEventStep::ReportDisconnected);
    assert_eq!(poll_event_step(true, false, false, true, true), PollEventStep::ReadAndDecode);
    assert_eq!(poll_event_step(false, false, false, true, false), PollEventStep::ReadAndDecode);
    assert_eq!(poll_event_step(true, false, false, false, true), PollEventStep::MarkConnected);
    assert_eq!(poll_event_step(false, false, false, false, true), PollEventStep::WriteOut);
    assert_eq!(poll_event_step(false, false, false, false, false), PollEventStep::Ignore);
}

#[test]
fn window_messages_fall_back_to_the_default_procedure() {
    assert_eq!(window_answer::<String>(IntegrationReply::CreationFailed), WindowAnswer::Answer(0));
    assert_eq!(window_answer::<String>(IntegrationReply::NoIntegration), WindowAnswer::DefaultProcedure);
    assert_eq!(window_answer::<String>(IntegrationReply::Replied(Ok(42))), WindowAnswer::Answer(42));
    assert_eq!(
        window_answer(IntegrationReply::Replied(Err("tray icon".to_string()))),
        WindowAnswer::DefaultProcedure
    );
    assert_eq!(window_answer::<String>(IntegrationReply::Panicked), WindowAnswer::QuitAndDefaultProcedure);
}

#[test]
fn pipe_writes_in_flight_are_kept_until_done() {
    let mut client: PipeConnection<u8> = PipeConnection::new(false);
    assert_eq!(client.write_result(TransferOutcome::Completed, 1), Ok(()));
    assert_eq!(client.pending_write_count(), 0);
    assert_eq!(client.write_result(TransferOutcome::InProgress, 2), Ok(()));
    assert_eq!(client.write_result(TransferOutcome::InProgress, 3), Ok(()));
    assert_eq!(client.write_result(TransferOutcome::InProgress, 4), Ok(()));
    assert_eq!(client.pending_write_count(), 3);
    assert_eq!(client.pending_write_result(1, TransferOutcome::Completed), Ok(()));
    assert_eq!(client.pending_write_result(0, TransferOutcome::InProgress), Ok(()));
    assert_eq!(client.pending_write_count(), 2);
    assert_eq!(*client.pending_write(0), 2);
    assert_eq!(*client.pending_write(1), 4);
    assert_eq!(client.write_result(TransferOutcome::Failed(6), 5), Err(6));
    assert_eq!(client.pending_write_count(), 0);
    assert!(!client.is_connected());
}

fn attrs(names: &[Option<&str>]) -> Vec<Option<String>> {
    names.iter().map(|n| n.map(String::from)).collect()
}

#[test]
fn markers_are_read_from_attribute_names() {
    let found = CallHandlerArgumentAttribute::from_attrs(&attrs(&[
        Some("doc"),
        Some("responder"),
        None,
        Some("engine"),
        Some("responder"),
    ]));
    assert_eq!(
        found,
        vec![
            CallHandlerArgumentAttribute::Responder,
            CallHandlerArgumentAttribute::Engine,
            CallHandlerArgumentAttribute::Responder
        ]
    );
    assert!(CallHandlerArgumentAttribute::from_attrs(&Vec::new()).is_empty());
}

#[test]
fn cleaning_takes_out_only_markers() {
    let mut attributes = attrs(&[Some("engine"), Some("doc"), None, Some("responder"), Some("allow")]);
    CallHandlerArgumentAttribute::clean(&mut attributes);
    assert_eq!(attributes, attrs(&[Some("doc"), None, Some("allow")]));
}

#[test]
fn arms_give_each_argument_its_source() {
    let engine = CallHandlerArgumentAttribute::Engine;
    let responder = CallHandlerArgumentAttribute::Responder;
    let arguments = vec![vec![], vec![engine], vec![], vec![responder, engine], vec![responder], vec![]];
    let arm = plan_arm(true, "change".to_string(), true, &arguments).unwrap();
    assert_eq!(arm.method, "change");
    assert!(arm.takes_self);
    assert_eq!(
        arm.sources,
        vec![
            ArgumentSource::Decoded(0),
            ArgumentSource::Engine,
            ArgumentSource::Decoded(1),
            ArgumentSource::Engine,
            ArgumentSource::Responder,
            ArgumentSource::Decoded(2)
        ]
    );
    assert_eq!(arm.decoded, 3);
    assert!(arm.replies_itself);

    let plain = plan_arm(true, "log".to_string(), false, &vec![vec![engine]]).unwrap();
    assert_eq!(plain.decoded, 0);
    assert!(!plain.replies_itself);
    assert!(!plain.takes_self);

    assert!(plan_arm(false, "hidden".to_string(), true, &Vec::new()).is_none());
}
