use snowland::unix_ipc::{
    consumes_event, daemon_path, determine_socket_dir, determine_socket_path, socket_event_step,
    SocketEventStep,
    ACCEPT_TOKEN, CLIENT_TOKEN,
};
use snowland::win32::{PipeConnection, ReadProgress, ReadStep, TransferOutcome};
use std::path::PathBuf;
use snowland::controller::{configuration_message, plan_messages, HostAction, ModuleList};
use snowland::ipc_buffer::{DecodeOutcome, IPCBuffer, ReadFlow, OVERLONG_READ_MESSAGE};
use snowland::protocol::{
    ChangeConfiguration, ClientMessage, Configuration, ServerMessage, Structure, StructureNumber,
};

/// Messages of the form: a length byte, then that many bytes; a length of 255 is invalid.
fn decode(bytes: &[u8]) -> DecodeOutcome<Vec<u8>, String> {
    if bytes.is_empty() {
        return DecodeOutcome::Incomplete;
    }
    let n = bytes[0] as usize;
    if n == 255 {
        return DecodeOutcome::Failed("bad length".to_string());
    }
    if bytes.len() < 1 + n {
        return DecodeOutcome::Incomplete;
    }
    DecodeOutcome::Decoded(bytes[1..1 + n].to_vec(), 1 + n)
}

fn receive(buffer: &mut IPCBuffer, data: &[u8]) {
    let window = buffer.prepare_transfer_buffer();
    assert!(window.len() >= 1024);
    window[..data.len()].copy_from_slice(data);
    buffer.mark_transferred(data.len());
}

#[test]
fn transfer_windows_grow_by_a_fixed_step() {
    let mut buffer = IPCBuffer::new();
    assert_eq!(buffer.prepare_transfer_buffer().len(), 1024);
    buffer.mark_transferred(1000);
    assert_eq!(buffer.prepare_transfer_buffer().len(), 24 + 1024);
    buffer.flush();
    assert_eq!(buffer.prepare_transfer_buffer().len(), 1024);
}

#[test]
fn complete_messages_are_taken_off_the_front() {
    let mut buffer = IPCBuffer::new();
    receive(&mut buffer, &[2, 7, 8, 0, 3, 1]);
    let messages = buffer.decode_available_messages(decode).unwrap();
    assert_eq!(messages, vec![vec![7, 8], vec![]]);
    receive(&mut buffer, &[2, 3]);
    assert_eq!(buffer.decode_available_messages(decode).unwrap(), vec![vec![1, 2, 3]]);
    assert_eq!(buffer.decode_available_messages(decode).unwrap(), Vec::<Vec<u8>>::new());
}

#[test]
fn a_corrupt_message_fails_the_decoding_and_stays() {
    let mut buffer = IPCBuffer::new();
    receive(&mut buffer, &[1, 9, 255, 4]);
    assert_eq!(buffer.decode_available_messages(decode), Err("bad length".to_string()));
    assert_eq!(buffer.decode_available_messages(decode), Err("bad length".to_string()));
    buffer.flush();
    assert_eq!(buffer.decode_available_messages(decode).unwrap(), Vec::<Vec<u8>>::new());
}

#[test]
fn reordering_moves_one_module_and_can_be_undone() {
    let mut list = ModuleList::new();
    list.replace_modules(vec!["a", "b", "c", "d"]);
    list.reorder_modules(0, 2);
    assert_eq!(list.get_modules(), &vec!["b", "c", "a", "d"]);
    list.reorder_modules(2, 0);
    assert_eq!(list.get_modules(), &vec!["a", "b", "c", "d"]);
    list.reorder_modules(3, 1);
    assert_eq!(list.get_modules(), &vec!["a", "d", "b", "c"]);
}

#[test]
fn configuration_changes_address_existing_modules() {
    let mut list = ModuleList::new();
    list.replace_modules(vec![1, 2, 3]);
    assert_eq!(list.configuration_target(1), Some(1));
    assert_eq!(list.configuration_target(4), None);
    *list.module_mut(2) = 30;
    assert_eq!(list.get_modules(), &vec![1, 2, 30]);
}

#[test]
fn changing_messages_schedule_a_save() {
    let actions = plan_messages(
        vec![
            ClientMessage::QueryConfiguration,
            ClientMessage::ReorderModules(1, 0),
            ClientMessage::AddModule("Countdown".to_string()),
            ClientMessage::ChangeConfiguration(ChangeConfiguration {
                module: 0,
                new_configuration: Structure::Number(StructureNumber::PosInt(3)),
            }),
            ClientMessage::RemoveModule(2),
            ClientMessage::QueryDisplays,
        ],
        true,
    );
    let names: Vec<String> = actions.iter().map(|a| format!("{:?}", a)).collect();
    assert_eq!(
        names,
        vec![
            "SendConfiguration",
            "ReorderModules(1, 0)",
            "AddModule(\"Countdown\")",
            "SendConfiguration",
            "ChangeConfiguration(0, Number(PosInt(3)))",
            "RemoveModule(2)",
            "SendConfiguration",
            "SendDisplays",
            "ScheduleSave",
        ]
    );
}

#[test]
fn a_due_save_happens_when_nothing_changed() {
    let actions = plan_messages(vec![ClientMessage::QueryDisplays], true);
    assert!(matches!(actions.as_slice(), [HostAction::SendDisplays, HostAction::SaveNow]));
    let actions = plan_messages(vec![], false);
    assert!(actions.is_empty());
    let actions = plan_messages(vec![], true);
    assert!(matches!(actions.as_slice(), [HostAction::SaveNow]));
}

#[test]
fn socket_directory_follows_the_environment() {
    let cases: [(Option<&str>, Option<&str>); 5] = [
        (Some("/run/user/1000"), Some("/var/tmp")),
        (None, Some("/var/tmp/")),
        (None, None),
        (Some(""), None),
        (Some("relative/dir"), None),
    ];
    for (runtime, tmp) in cases {
        let base = runtime.or(tmp).unwrap_or("/tmp");
        let mut expected = PathBuf::from(base);
        expected.push("snowland");
        let dir = determine_socket_dir(runtime.map(String::from), tmp.map(String::from));
        assert_eq!(dir, expected.to_str().unwrap(), "{:?} {:?}", runtime, tmp);
    }
    assert_eq!(determine_socket_dir(None, None), "/tmp/snowland");
}

#[test]
fn socket_paths_name_the_instance() {
    assert_eq!(determine_socket_path("/tmp/snowland", 3), "/tmp/snowland/host-ipc-3.socket");
    assert_eq!(determine_socket_path("/tmp/snowland/", 12), "/tmp/snowland/host-ipc-12.socket");
    assert_eq!(determine_socket_path("", 1), "host-ipc-1.socket");
}

#[test]
fn socket_events_are_routed_by_token() {
    assert!(consumes_event(ACCEPT_TOKEN));
    assert!(consumes_event(CLIENT_TOKEN));
    assert!(!consumes_event(1));
    assert_eq!(socket_event_step(ACCEPT_TOKEN, true, true, true), SocketEventStep::Accept);
    assert_eq!(socket_event_step(CLIENT_TOKEN, true, false, true), SocketEventStep::Deregister);
    assert_eq!(socket_event_step(CLIENT_TOKEN, false, true, false), SocketEventStep::Deregister);
    assert_eq!(socket_event_step(CLIENT_TOKEN, false, false, true), SocketEventStep::ReadAndDecode);
    assert_eq!(socket_event_step(CLIENT_TOKEN, false, false, false), SocketEventStep::Ignore);
}

#[test]
fn the_host_executable_is_looked_for_next_to_this_one() {
    assert_eq!(
        daemon_path(Some(Some("/opt/snowland".to_string())), None),
        Some("/opt/snowland/snowland-linux-host".to_string())
    );
    assert_eq!(daemon_path(Some(None), Some("/home".to_string())), Some("/snowland-linux-host".to_string()));
    assert_eq!(daemon_path(None, Some("/work/".to_string())), Some("/work/snowland-linux-host".to_string()));
    assert_eq!(daemon_path(None, None), None);
}

#[test]
fn a_pipe_drops_its_peer_when_decoding_fails() {
    let mut connection: PipeConnection<u8> = PipeConnection::new(false);
    pipe_receive(&mut connection, &[2, 7, 8, 1]);
    assert_eq!(connection.decode_available(decode), Ok(vec![vec![7, 8]]));
    assert!(connection.is_connected());
    pipe_receive(&mut connection, &[9]);
    assert_eq!(connection.decode_available(decode), Ok(vec![vec![9]]));
    assert!(connection.write_result(TransferOutcome::InProgress, 4).is_ok());
    pipe_receive(&mut connection, &[1, 3, 255, 0]);
    assert_eq!(connection.decode_available(decode), Err("bad length".to_string()));
    assert!(!connection.is_connected());
    assert_eq!(connection.pending_write_count(), 0);
    assert_eq!(connection.read_step(), ReadStep::NotConnected);
    assert_eq!(connection.decode_available(decode), Ok(Vec::<Vec<u8>>::new()));
}

fn pipe_receive(connection: &mut PipeConnection<u8>, data: &[u8]) {
    let window = connection.transfer_window();
    window[..data.len()].copy_from_slice(data);
    assert_eq!(connection.read_result(TransferOutcome::Completed, data.len()), ReadProgress::Decode);
}

#[test]
fn reads_go_on_until_nothing_more_arrives() {
    let mut buffer = IPCBuffer::new();
    let mut chunks = vec![vec![2u8, 7], vec![8, 1, 9]].into_iter();
    let result = buffer.read_using(|window: &mut [u8]| match chunks.next() {
        Some(chunk) => {
            window[..chunk.len()].copy_from_slice(&chunk);
            Ok(chunk.len())
        },
        None => Ok(0),
    });
    assert!(result.is_ok());
    assert_eq!(buffer.decode_available_messages(decode).unwrap(), vec![vec![7, 8], vec![9]]);

    let mut calls = 0;
    let result = buffer.read_using(|window: &mut [u8]| {
        calls += 1;
        if calls == 1 {
            window[0] = 0;
            Ok(1)
        } else {
            Err(std::io::Error::from(std::io::ErrorKind::WouldBlock))
        }
    });
    assert!(result.is_ok());
    assert_eq!(calls, 2);
    assert_eq!(buffer.decode_available_messages(decode).unwrap(), vec![Vec::<u8>::new()]);
}

#[test]
fn a_failed_read_keeps_what_arrived_before() {
    let mut buffer = IPCBuffer::new();
    let mut calls = 0;
    let result = buffer.read_using(|window: &mut [u8]| {
        calls += 1;
        if calls == 1 {
            window[..2].copy_from_slice(&[1, 6]);
            Ok(2)
        } else {
            Err(std::io::Error::from(std::io::ErrorKind::ConnectionReset))
        }
    });
    assert_eq!(result.unwrap_err().kind(), std::io::ErrorKind::ConnectionReset);
    assert_eq!(buffer.decode_available_messages(decode).unwrap(), vec![vec![6]]);

    let result = buffer.read_using(|window: &mut [u8]| Ok(window.len() + 1));
    let error = result.unwrap_err();
    assert_eq!(error.kind(), std::io::ErrorKind::InvalidData);
    assert_eq!(error.to_string(), OVERLONG_READ_MESSAGE);
    assert_eq!(buffer.decode_available_messages(decode).unwrap(), Vec::<Vec<u8>>::new());
}

#[test]
fn single_reads_are_judged_by_what_they_report() {
    let mut buffer = IPCBuffer::new();
    let offered = buffer.prepare_transfer_buffer().len();
    assert!(matches!(buffer.take_read(offered, Ok(0)), ReadFlow::Done));
    assert!(matches!(
        buffer.take_read(offered, Err(std::io::Error::from(std::io::ErrorKind::WouldBlock))),
        ReadFlow::Done
    ));
    match buffer.take_read(offered, Err(std::io::Error::from(std::io::ErrorKind::BrokenPipe))) {
        ReadFlow::Failed(error) => assert_eq!(error.kind(), std::io::ErrorKind::BrokenPipe),
        other => panic!("{:?}", other),
    }
    match buffer.take_read(offered, Ok(offered + 1)) {
        ReadFlow::Failed(error) => assert_eq!(error.kind(), std::io::ErrorKind::InvalidData),
        other => panic!("{:?}", other),
    }
    assert!(matches!(buffer.take_read(offered, Ok(3)), ReadFlow::Continue));
    assert_eq!(buffer.prepare_transfer_buffer().len(), 1024 - 3 + 1024);
    assert_eq!(buffer.decode_available_messages(decode), Ok(vec![Vec::<u8>::new(); 3]));
}

#[test]
fn the_configuration_message_lists_every_module() {
    let modules: Vec<(String, Result<Structure, String>)> = vec![
        ("Countdown".to_string(), Ok(Structure::Bool(true))),
        ("Snow".to_string(), Ok(Structure::Null)),
    ];
    match configuration_message(modules) {
        Ok(ServerMessage::UpdateConfiguration(configuration)) => {
            let names: Vec<&str> = configuration.modules.iter().map(|m| m.ty.as_str()).collect();
            assert_eq!(names, vec!["Countdown", "Snow"]);
            assert!(matches!(configuration.modules[0].configuration, Structure::Bool(true)));
            assert!(matches!(configuration.modules[1].configuration, Structure::Null));
        },
        other => panic!("{:?}", other),
    }
    assert!(matches!(
        configuration_message::<String>(vec![]),
        Ok(ServerMessage::UpdateConfiguration(Configuration { modules })) if modules.is_empty()
    ));
    let modules: Vec<(String, Result<Structure, String>)> = vec![
        ("Countdown".to_string(), Ok(Structure::Null)),
        ("Snow".to_string(), Err("first".to_string())),
        ("Clock".to_string(), Err("second".to_string())),
    ];
    assert_eq!(configuration_message(modules).unwrap_err(), "first");
}
