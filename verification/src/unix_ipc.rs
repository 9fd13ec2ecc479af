//! The decisions of the Unix socket transport: where its sockets live, and what it
//! does with each readiness event its poll reports.

use vstd::prelude::*;

use crate::instances::socket_file_name;

verus! {

/// The poll token of a host's listening socket.
pub const ACCEPT_TOKEN: usize = 0x100;

/// The poll token of the connected stream.
pub const CLIENT_TOKEN: usize = 0x101;

/// `base` with the relative path `name` appended, as `PathBuf::push` does it on Unix:
/// a separator goes between them unless `base` is empty or already ends in one.
pub open spec fn path_pushed(base: Seq<char>, name: Seq<char>) -> Seq<char> {
    if base.len() == 0 || base.last() == '/' {
        base + name
    } else {
        base + "/"@ + name
    }
}

/// The directory that holds the host sockets: `snowland` inside the runtime directory,
/// else inside the temporary directory, else inside `/tmp`.
pub open spec fn socket_dir_path(runtime_dir: Option<Seq<char>>, tmp_dir: Option<Seq<char>>) -> Seq<
    char,
> {
    let base = match runtime_dir {
        Some(dir) => dir,
        None => match tmp_dir {
            Some(dir) => dir,
            None => "/tmp"@,
        },
    };
    path_pushed(base, "snowland"@)
}

/// Appends the relative path `name` to `base` as `PathBuf::push` does it on Unix.
fn push_path(base: &mut String, name: &str)
    ensures
        final(base)@ == path_pushed(old(base)@, name@),
{
    let length = base.unicode_len();
    if length > 0 && base.get_char(length - 1) != '/' {
        base.append("/");
    }
    base.append(name);
}

/// The directory that holds the host sockets, given the values of `XDG_RUNTIME_DIR` and
/// `TMP` (each `None` where it is unset or not unicode).
pub fn determine_socket_dir(runtime_dir: Option<String>, tmp_dir: Option<String>) -> (dir: String)
    ensures
        dir@ == socket_dir_path(
            match runtime_dir {
                Some(d) => Some(d@),
                None => None,
            },
            match tmp_dir {
                Some(d) => Some(d@),
                None => None,
            },
        ),
{
    let mut dir = match runtime_dir {
        Some(dir) => dir,
        None => match tmp_dir {
            Some(dir) => dir,
            None => "/tmp".to_owned(),
        },
    };
    push_path(&mut dir, "snowland");
    dir
}

/// The path of the socket of host `instance` inside `socket_dir`.
pub fn determine_socket_path(socket_dir: &str, instance: usize) -> (path: String)
    ensures
        path@ == path_pushed(socket_dir@, socket_file_name_text(instance)),
{
    let mut path = socket_dir.to_owned();
    let name = socket_file_name(instance);
    push_path(&mut path, name.as_str());
    path
}

/// The file name of the socket of host `instance`.
pub open spec fn socket_file_name_text(instance: usize) -> Seq<char> {
    "host-ipc-"@ + crate::text::decimal(instance as int) + ".socket"@
}

/// Whether an event with this token belongs to the transport.
pub fn consumes_event(token: usize) -> (consumed: bool)
    ensures
        consumed == (token == ACCEPT_TOKEN || token == CLIENT_TOKEN),
{
    token == ACCEPT_TOKEN || token == CLIENT_TOKEN
}

/// What the transport does with one of its events.
#[derive(Clone, Copy, Debug, PartialEq, Eq, Structural)]
pub enum SocketEventStep {
    /// Accept the waiting connection and watch it.
    Accept,
    /// The peer closed a direction: stop watching the stream.
    Deregister,
    /// Read what arrived and decode the complete messages in it.
    ReadAndDecode,
    /// Nothing to do.
    Ignore,
}

/// What the transport does with an event of its own, by the event's token and what the
/// event reports. An event with any other token is a programming error.
pub fn socket_event_step(token: usize, read_closed: bool, write_closed: bool, readable: bool) -> (step:
    SocketEventStep)
    requires
        token == ACCEPT_TOKEN || token == CLIENT_TOKEN,
    ensures
        step == if token == ACCEPT_TOKEN {
            SocketEventStep::Accept
        } else if read_closed || write_closed {
            SocketEventStep::Deregister
        } else if readable {
            SocketEventStep::ReadAndDecode
        } else {
            SocketEventStep::Ignore
        },
{
    if token == ACCEPT_TOKEN {
        SocketEventStep::Accept
    } else if read_closed || write_closed {
        SocketEventStep::Deregister
    } else if readable {
        SocketEventStep::ReadAndDecode
    } else {
        SocketEventStep::Ignore
    }
}

/// The file name of the host executable.
pub const SNOWLAND_DAEMON_EXE_NAME: &'static str = "snowland-linux-host";

/// Where the host executable is looked for: next to the control panel's executable (in
/// `/` when that has no parent directory), else, when the executable's path is unknown,
/// in the working directory; `None` when that is unknown too.
pub open spec fn daemon_location(
    exe_parent: Option<Option<Seq<char>>>,
    working_dir: Option<Seq<char>>,
) -> Option<Seq<char>> {
    match exe_parent {
        Some(Some(dir)) => Some(path_pushed(dir, SNOWLAND_DAEMON_EXE_NAME@)),
        Some(None) => Some(path_pushed("/"@, SNOWLAND_DAEMON_EXE_NAME@)),
        None => match working_dir {
            Some(dir) => Some(path_pushed(dir, SNOWLAND_DAEMON_EXE_NAME@)),
            None => None,
        },
    }
}

/// Where the host executable is looked for, given the parent directory of the control
/// panel's executable (`None` when the executable's path is unknown, `Some(None)` when it
/// has no parent) and the working directory (`None` when unknown).
pub fn daemon_path(exe_parent: Option<Option<String>>, working_dir: Option<String>) -> (path:
    Option<String>)
    ensures
        path matches Some(p) ==> daemon_location(
            match exe_parent {
                Some(Some(d)) => Some(Some(d@)),
                Some(None) => Some(None),
                None => None,
            },
            match working_dir {
                Some(d) => Some(d@),
                None => None,
            },
        ) == Some(p@),
        path is None <==> (exe_parent is None && working_dir is None),
{
    let dir = match exe_parent {
        Some(Some(dir)) => dir,
        Some(None) => "/".to_owned(),
        None => match working_dir {
            Some(dir) => dir,
            None => return None,
        },
    };
    let mut path = dir;
    push_path(&mut path, SNOWLAND_DAEMON_EXE_NAME);
    Some(path)
}

} // verus!
