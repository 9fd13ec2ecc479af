//! The startup share: a pipe whose write end a newly started host inherits, and
//! through which it reports back once it is up.

use vstd::prelude::*;
use vstd::string::StringSliceAdditionalSpecFns;

use crate::text::{
    append_decimal_u64, decimal, decimal_digits, decimal_string, lemma_decimal_parses_back, parse_i32,
    parsed_signed,
};

verus! {

/// `std::io::Error`, carried through as an opaque value.
#[verifier::external_type_specification]
#[verifier::external_body]
pub struct ExIoError(std::io::Error);

/// The environment variable that hands the write end of the share to a new host.
pub const STARTUP_SHARE_ENVIRONMENT_VAR: &'static str = "SNOWLAND_STARTUP_SHARE";

/// The kinds of I/O error this library tells apart: those a startup share failure is
/// reported as, and the one a nonblocking read reports when nothing is there yet.
#[derive(Clone, Copy, Debug, PartialEq, Eq, Structural)]
pub enum IoErrorKind {
    NotFound,
    InvalidInput,
    InvalidData,
    Unsupported,
    WouldBlock,
}

/// Why a startup share could not be used.
#[derive(Debug)]
pub enum StartupShareError {
    /// An I/O error occurred.
    Io(std::io::Error),
    /// No startup share was found.
    NotPresent,
    /// A startup share was found, but its value was invalid.
    Invalid,
    /// Data of this size cannot be stored in a startup share.
    BadDataSize(usize),
    /// The startup share can only be read.
    ReadOnly,
}

/// The text describing a failure other than an I/O error.
pub open spec fn startup_error_text(error: StartupShareError) -> Seq<char> {
    match error {
        StartupShareError::Io(_) => "an io error occurred: "@,
        StartupShareError::NotPresent => "no startup share was found"@,
        StartupShareError::Invalid => "a startup share was found, but its value was invalid"@,
        StartupShareError::BadDataSize(size) => "data of the size "@ + decimal_digits(size as nat)
            + " can't be stored in a startup share"@,
        StartupShareError::ReadOnly => "the startup share can only be read"@,
    }
}

/// The I/O error kind a failure maps to; an I/O error keeps its own kind.
pub open spec fn startup_error_kind(error: StartupShareError) -> Option<IoErrorKind> {
    match error {
        StartupShareError::Io(_) => None,
        StartupShareError::NotPresent => Some(IoErrorKind::NotFound),
        StartupShareError::Invalid => Some(IoErrorKind::InvalidInput),
        StartupShareError::BadDataSize(_) => Some(IoErrorKind::InvalidData),
        StartupShareError::ReadOnly => Some(IoErrorKind::Unsupported),
    }
}

/// The kind of an I/O error, where it is one of the kinds this library tells apart.
pub uninterp spec fn io_error_kind_of(error: std::io::Error) -> Option<IoErrorKind>;

/// `std::io::Error::kind`, narrowed to the kinds this library tells apart. Claimed:
/// the result is [`io_error_kind_of`] the error.
#[verifier::external_body]
pub(crate) fn io_error_kind(error: &std::io::Error) -> (kind: Option<IoErrorKind>)
    ensures
        kind == io_error_kind_of(*error),
{
    match error.kind() {
        std::io::ErrorKind::NotFound => Some(IoErrorKind::NotFound),
        std::io::ErrorKind::InvalidInput => Some(IoErrorKind::InvalidInput),
        std::io::ErrorKind::InvalidData => Some(IoErrorKind::InvalidData),
        std::io::ErrorKind::Unsupported => Some(IoErrorKind::Unsupported),
        std::io::ErrorKind::WouldBlock => Some(IoErrorKind::WouldBlock),
        _ => None,
    }
}

/// The text that an I/O error made by [`new_io_error`] renders: the message it was made
/// with. Nothing is said of the text of other I/O errors, which may follow the locale or
/// a payload's own `Display`.
pub uninterp spec fn io_error_text_of(error: std::io::Error) -> Seq<char>;

/// The text of an I/O error, as `format!` renders it through the error's `Display`.
/// Nothing is claimed of the text: for an operating system error it follows the locale,
/// and a custom error renders its payload however that chooses.
#[verifier::external_body]
fn io_error_text(error: &std::io::Error) -> String {
    format!("{}", error)
}

/// `std::io::Error::new`: an I/O error of the given kind whose payload is `message`.
/// Claimed, as std documents it, that the error has that kind and that its `Display`
/// renders the message.
#[verifier::external_body]
pub(crate) fn new_io_error(kind: IoErrorKind, message: String) -> (error: std::io::Error)
    ensures
        io_error_kind_of(error) == Some(kind),
        io_error_text_of(error) == message@,
{
    let kind = match kind {
        IoErrorKind::NotFound => std::io::ErrorKind::NotFound,
        IoErrorKind::InvalidInput => std::io::ErrorKind::InvalidInput,
        IoErrorKind::InvalidData => std::io::ErrorKind::InvalidData,
        IoErrorKind::Unsupported => std::io::ErrorKind::Unsupported,
        IoErrorKind::WouldBlock => std::io::ErrorKind::WouldBlock,
    };
    std::io::Error::new(kind, message)
}

impl StartupShareError {
    /// The I/O error kind this failure is reported as; `None` for an I/O error, which
    /// keeps its own.
    pub fn io_error_kind(&self) -> (kind: Option<IoErrorKind>)
        ensures
            kind == startup_error_kind(*self),
    {
        match self {
            StartupShareError::Io(_) => None,
            StartupShareError::NotPresent => Some(IoErrorKind::NotFound),
            StartupShareError::Invalid => Some(IoErrorKind::InvalidInput),
            StartupShareError::BadDataSize(_) => Some(IoErrorKind::InvalidData),
            StartupShareError::ReadOnly => Some(IoErrorKind::Unsupported),
        }
    }

    /// The I/O error kind of a failure that is not itself an I/O error.
    fn failure_kind(&self) -> (kind: IoErrorKind)
        requires
            !(*self is Io),
        ensures
            startup_error_kind(*self) == Some(kind),
    {
        match self {
            StartupShareError::NotPresent => IoErrorKind::NotFound,
            StartupShareError::Invalid => IoErrorKind::InvalidInput,
            StartupShareError::BadDataSize(_) => IoErrorKind::InvalidData,
            _ => IoErrorKind::Unsupported,
        }
    }

    /// The text describing the failure. For an I/O error it is the fixed prefix
    /// followed by the error's own text, which is not stated.
    pub fn message(&self) -> (text: String)
        ensures
            !(*self is Io) ==> text@ == startup_error_text(*self),
            *self is Io ==> text@.len() >= startup_error_text(*self).len() && text@.take(
                startup_error_text(*self).len() as int,
            ) == startup_error_text(*self),
    {
        match self {
            StartupShareError::Io(error) => {
                let mut text = "an io error occurred: ".to_owned();
                let detail = io_error_text(error);
                let ghost prefix = text@;
                text.append(detail.as_str());
                assert(text@.take(prefix.len() as int) =~= prefix);
                text
            },
            StartupShareError::NotPresent => "no startup share was found".to_owned(),
            StartupShareError::Invalid => "a startup share was found, but its value was invalid".to_owned(),
            StartupShareError::BadDataSize(size) => {
                let mut text = "data of the size ".to_owned();
                append_decimal_u64(&mut text, *size as u64);
                text.append(" can't be stored in a startup share");
                text
            },
            StartupShareError::ReadOnly => "the startup share can only be read".to_owned(),
        }
    }

    /// Turns the failure into an I/O error: an I/O error is returned as it is, any
    /// other failure becomes a new error of the kind `io_error_kind` gives, carrying
    /// `message` as its payload.
    pub fn into_io_error(self) -> (error: std::io::Error)
        ensures
            self matches StartupShareError::Io(inner) ==> error == inner,
            !(self is Io) ==> io_error_kind_of(error) == startup_error_kind(self),
            !(self is Io) ==> io_error_text_of(error) == startup_error_text(self),
    {
        match self {
            StartupShareError::Io(error) => error,
            other => {
                let kind = other.failure_kind();
                let text = other.message();
                new_io_error(kind, text)
            },
        }
    }
}

/// What a new host finds in its startup share environment variable.
pub enum ShareVariable {
    /// The variable is not set.
    Missing,
    /// The variable is set, but not to valid unicode.
    NotUnicode,
    /// The variable's value.
    Value(String),
}

/// A startup share, by the descriptors of its pipe.
#[derive(Debug)]
pub struct StartupShare {
    read_fd: i32,
    write_fd: i32,
}

impl StartupShare {
    /// The descriptor the share is read from.
    pub closed spec fn read_descriptor(&self) -> i32 {
        self.read_fd
    }

    /// The descriptor the started host writes to.
    pub closed spec fn write_descriptor(&self) -> i32 {
        self.write_fd
    }

    /// A share over the pipe that was opened for it, or the I/O error that opening
    /// the pipe gave.
    pub fn new(pipe: Result<(i32, i32), std::io::Error>) -> (share: Result<Self, StartupShareError>)
        ensures
            match pipe {
                Ok((read_fd, write_fd)) => share matches Ok(s) && s.read_descriptor() == read_fd
                    && s.write_descriptor() == write_fd,
                Err(e) => share matches Err(StartupShareError::Io(inner)) && inner == e,
            },
    {
        match pipe {
            Ok((read_fd, write_fd)) => Ok(Self { read_fd, write_fd }),
            Err(error) => Err(StartupShareError::Io(error)),
        }
    }

    /// The descriptor the share is read from.
    pub fn read_fd(&self) -> (fd: i32)
        ensures
            fd == self.read_descriptor(),
    {
        self.read_fd
    }

    /// The descriptor the started host writes to.
    pub fn write_fd(&self) -> (fd: i32)
        ensures
            fd == self.write_descriptor(),
    {
        self.write_fd
    }

    /// The value the environment variable is set to for a host started with this share.
    pub fn environment_value(&self) -> (value: String)
        ensures
            value@ == decimal(self.write_descriptor() as int),
    {
        decimal_string(self.write_fd as i64)
    }

    /// Decides where a started host reports `data` to: the descriptor named by its
    /// environment variable, or why it cannot.
    pub fn fulfill_current(data: &[u8], variable: ShareVariable) -> (target: Result<
        i32,
        StartupShareError,
    >)
        ensures
            data@.len() == 0 ==> target matches Err(StartupShareError::BadDataSize(0)),
            data@.len() > 0 ==> match variable {
                ShareVariable::Missing => target matches Err(StartupShareError::NotPresent),
                ShareVariable::NotUnicode => target matches Err(StartupShareError::Invalid),
                ShareVariable::Value(text) => match parsed_signed(
                    vstd::utf8::encode_utf8(text@),
                    i32::MIN as int,
                    i32::MAX as int,
                ) {
                    Some(fd) => target == Ok::<i32, StartupShareError>(fd as i32),
                    None => target matches Err(StartupShareError::Invalid),
                },
            },
    {
        if data.len() == 0 {
            return Err(StartupShareError::BadDataSize(0));
        }
        match variable {
            ShareVariable::Missing => Err(StartupShareError::NotPresent),
            ShareVariable::NotUnicode => Err(StartupShareError::Invalid),
            ShareVariable::Value(text) => match parse_i32(text.as_str().as_bytes()) {
                Some(fd) => Ok(fd),
                None => Err(StartupShareError::Invalid),
            },
        }
    }
}

/// A host started with a share finds the share's write descriptor: the value
/// `environment_value` sets the variable to is read back by `fulfill_current` as that
/// same descriptor.
pub proof fn lemma_share_value_read_back(share: StartupShare)
    ensures
        parsed_signed(
            vstd::utf8::encode_utf8(decimal(share.write_descriptor() as int)),
            i32::MIN as int,
            i32::MAX as int,
        ) == Some(share.write_descriptor() as int),
{
    lemma_decimal_parses_back(share.write_descriptor() as int, i32::MIN as int, i32::MAX as int);
}

} // verus!
