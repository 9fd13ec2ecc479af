use snowland::startup::{IoErrorKind, ShareVariable, StartupShare, StartupShareError};

#[test]
fn failures_map_to_io_error_kinds() {
    assert_eq!(StartupShareError::NotPresent.io_error_kind(), Some(IoErrorKind::NotFound));
    assert_eq!(StartupShareError::Invalid.io_error_kind(), Some(IoErrorKind::InvalidInput));
    assert_eq!(StartupShareError::BadDataSize(3).io_error_kind(), Some(IoErrorKind::InvalidData));
    assert_eq!(StartupShareError::ReadOnly.io_error_kind(), Some(IoErrorKind::Unsupported));
    let io = std::io::Error::new(std::io::ErrorKind::Other, "boom");
    assert_eq!(StartupShareError::Io(io).io_error_kind(), None);
}

#[test]
fn failures_describe_themselves() {
    assert_eq!(StartupShareError::NotPresent.message(), "no startup share was found");
    assert_eq!(StartupShareError::Invalid.message(), "a startup share was found, but its value was invalid");
    assert_eq!(StartupShareError::BadDataSize(0).message(), "data of the size 0 can't be stored in a startup share");
    assert_eq!(StartupShareError::ReadOnly.message(), "the startup share can only be read");
    let io = std::io::Error::new(std::io::ErrorKind::Other, "boom");
    assert_eq!(StartupShareError::Io(io).message(), "an io error occurred: boom");
}

#[test]
fn failures_become_io_errors_of_their_kind() {
    let error = StartupShareError::NotPresent.into_io_error();
    assert_eq!(error.kind(), std::io::ErrorKind::NotFound);
    assert_eq!(error.to_string(), "no startup share was found");
    assert_eq!(StartupShareError::Invalid.into_io_error().kind(), std::io::ErrorKind::InvalidInput);
    let error = StartupShareError::BadDataSize(12).into_io_error();
    assert_eq!(error.kind(), std::io::ErrorKind::InvalidData);
    assert_eq!(error.to_string(), "data of the size 12 can't be stored in a startup share");
    assert_eq!(StartupShareError::ReadOnly.into_io_error().kind(), std::io::ErrorKind::Unsupported);
    let io = std::io::Error::new(std::io::ErrorKind::PermissionDenied, "denied");
    let error = StartupShareError::Io(io).into_io_error();
    assert_eq!(error.kind(), std::io::ErrorKind::PermissionDenied);
    assert_eq!(error.to_string(), "denied");
}

#[test]
fn a_share_is_made_from_its_pipe() {
    let share = StartupShare::new(Ok((3, 4))).unwrap();
    assert_eq!((share.read_fd(), share.write_fd()), (3, 4));
    assert_eq!(share.environment_value(), "4");
    let failed = StartupShare::new(Err(std::io::Error::new(std::io::ErrorKind::Other, "no pipe")));
    assert!(matches!(failed, Err(StartupShareError::Io(_))));
}

#[test]
fn a_started_host_finds_its_share_in_the_environment() {
    assert!(matches!(StartupShare::fulfill_current(&[], ShareVariable::Value("5".into())), Err(StartupShareError::BadDataSize(0))));
    assert!(matches!(StartupShare::fulfill_current(b"ok", ShareVariable::Missing), Err(StartupShareError::NotPresent)));
    assert!(matches!(StartupShare::fulfill_current(b"ok", ShareVariable::NotUnicode), Err(StartupShareError::Invalid)));
    assert!(matches!(StartupShare::fulfill_current(b"ok", ShareVariable::Value("x".into())), Err(StartupShareError::Invalid)));
    assert!(matches!(StartupShare::fulfill_current(b"ok", ShareVariable::Value("17".into())), Ok(17)));
    assert!(matches!(StartupShare::fulfill_current(b"ok", ShareVariable::Value("-1".into())), Ok(-1)));
}

#[test]
fn started_hosts_read_back_the_write_descriptor() {
    for (read_fd, write_fd) in [(3, 4), (10, 0), (-1, i32::MAX), (5, i32::MIN), (7, -12)] {
        let share = StartupShare::new(Ok((read_fd, write_fd))).unwrap();
        let value = share.environment_value();
        match StartupShare::fulfill_current(b"up", ShareVariable::Value(value)) {
            Ok(fd) => assert_eq!(fd, write_fd),
            Err(err) => panic!("share value was not read back: {:?}", err),
        }
    }
}
