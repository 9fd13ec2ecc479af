//! The decisions of the Windows host: its named pipe backend and its shell
//! integration window, over the results and codes the Win32 calls report.

use vstd::prelude::*;

use crate::ipc_buffer::{decodes_as, outcome_of, DecodeOutcome, IPCBuffer, TRANSFER_WINDOW};

verus! {

/// The name of the pipe hosts listen on.
pub const PIPE_NAME: &'static str = "\\\\.\\pipe\\snowland";

/// `ERROR_FILE_NOT_FOUND`.
pub const ERROR_FILE_NOT_FOUND: u32 = 2;

/// `ERROR_ACCESS_DENIED`.
pub const ERROR_ACCESS_DENIED: u32 = 5;

/// `ERROR_PIPE_BUSY`.
pub const ERROR_PIPE_BUSY: u32 = 231;

/// `ERROR_NO_DATA`.
pub const ERROR_NO_DATA: u32 = 232;

/// `ERROR_PIPE_CONNECTED`.
pub const ERROR_PIPE_CONNECTED: u32 = 535;

/// `ERROR_IO_INCOMPLETE`.
pub const ERROR_IO_INCOMPLETE: u32 = 996;

/// `ERROR_IO_PENDING`.
pub const ERROR_IO_PENDING: u32 = 997;

/// Why a pipe could not be opened.
#[derive(Clone, Copy, Debug, PartialEq, Eq, Structural)]
pub enum OpenFailure {
    /// A server runs already, or another client is connected.
    Duplicated,
    /// There is nothing to connect to.
    Disconnected,
    /// Any other error, by its code.
    Os(u32),
}

/// Opening and creating the pipe.
pub struct WindowsPipeIo;

impl WindowsPipeIo {
    /// What the last error of a failed open means, given the error code that means
    /// "duplicated" and, for clients, the one that means "disconnected".
    pub fn translate_open_error(
        last_error: u32,
        duplicated_error: u32,
        disconnected_error: Option<u32>,
    ) -> (failure: OpenFailure)
        ensures
            failure == if last_error == duplicated_error {
                OpenFailure::Duplicated
            } else if disconnected_error == Some(last_error) {
                OpenFailure::Disconnected
            } else {
                OpenFailure::Os(last_error)
            },
    {
        if last_error == duplicated_error {
            OpenFailure::Duplicated
        } else {
            match disconnected_error {
                Some(code) if code == last_error => OpenFailure::Disconnected,
                _ => OpenFailure::Os(last_error),
            }
        }
    }
}

/// What an attempt to accept a client came to.
#[derive(Clone, Copy, Debug, PartialEq, Eq, Structural)]
pub enum AcceptOutcome {
    /// A client is connected.
    Connected,
    /// No client yet.
    Pending,
    /// A client connected and went away again; the pipe has to be reset.
    ClientVanished,
    /// The attempt failed with this error code.
    Failed(u32),
}

/// What `ConnectNamedPipe` returning `connected` with `last_error` means.
pub fn accept_outcome(connected: bool, last_error: u32) -> (outcome: AcceptOutcome)
    ensures
        outcome == if connected {
            AcceptOutcome::Connected
        } else if last_error == ERROR_IO_PENDING {
            AcceptOutcome::Pending
        } else if last_error == ERROR_PIPE_CONNECTED {
            AcceptOutcome::Connected
        } else if last_error == ERROR_NO_DATA {
            AcceptOutcome::ClientVanished
        } else {
            AcceptOutcome::Failed(last_error)
        },
{
    if connected {
        AcceptOutcome::Connected
    } else if last_error == ERROR_IO_PENDING {
        AcceptOutcome::Pending
    } else if last_error == ERROR_PIPE_CONNECTED {
        AcceptOutcome::Connected
    } else if last_error == ERROR_NO_DATA {
        AcceptOutcome::ClientVanished
    } else {
        AcceptOutcome::Failed(last_error)
    }
}

/// What an overlapped transfer came to.
#[derive(Clone, Copy, Debug, PartialEq, Eq, Structural)]
pub enum TransferOutcome {
    /// The transfer is complete.
    Completed,
    /// The transfer still runs.
    InProgress,
    /// The transfer failed with this error code.
    Failed(u32),
}

/// What `GetOverlappedResult` returning `completed` with `last_error` means.
pub fn completion_outcome(completed: bool, last_error: u32) -> (outcome: TransferOutcome)
    ensures
        outcome == if completed {
            TransferOutcome::Completed
        } else if last_error == ERROR_IO_PENDING || last_error == ERROR_IO_INCOMPLETE {
            TransferOutcome::InProgress
        } else {
            TransferOutcome::Failed(last_error)
        },
{
    if completed {
        TransferOutcome::Completed
    } else if last_error == ERROR_IO_PENDING || last_error == ERROR_IO_INCOMPLETE {
        TransferOutcome::InProgress
    } else {
        TransferOutcome::Failed(last_error)
    }
}

/// What starting an overlapped read or write, which returned `completed` with
/// `last_error`, means.
pub fn start_outcome(completed: bool, last_error: u32) -> (outcome: TransferOutcome)
    ensures
        outcome == if completed {
            TransferOutcome::Completed
        } else if last_error == ERROR_IO_PENDING {
            TransferOutcome::InProgress
        } else {
            TransferOutcome::Failed(last_error)
        },
{
    if completed {
        TransferOutcome::Completed
    } else if last_error == ERROR_IO_PENDING {
        TransferOutcome::InProgress
    } else {
        TransferOutcome::Failed(last_error)
    }
}

/// What a [`PipeConnection`] holds.
pub ghost struct PipeConnectionView<W> {
    /// This end created the pipe and waits for clients.
    pub server: bool,
    /// A peer is connected.
    pub connected: bool,
    /// An overlapped read is in flight.
    pub reading: bool,
    /// The writes still in flight, oldest first.
    pub pending_writes: Seq<W>,
    /// The bytes received and not decoded yet.
    pub received: Seq<u8>,
}

/// One end of the named pipe: whether a peer is connected, whether a read is in
/// flight, the writes that are, and the bytes received.
pub struct PipeConnection<W> {
    server: bool,
    connected: bool,
    reading: bool,
    pending_writes: Vec<W>,
    buffer: IPCBuffer,
}

impl<W> View for PipeConnection<W> {
    type V = PipeConnectionView<W>;

    closed spec fn view(&self) -> PipeConnectionView<W> {
        PipeConnectionView {
            server: self.server,
            connected: self.connected,
            reading: self.reading,
            pending_writes: self.pending_writes@,
            received: self.buffer@,
        }
    }
}

/// `state` after a disconnect: nothing is connected, in flight or received any more.
pub open spec fn disconnected<W>(state: PipeConnectionView<W>) -> PipeConnectionView<W> {
    PipeConnectionView {
        server: state.server,
        connected: false,
        reading: false,
        pending_writes: Seq::empty(),
        received: Seq::empty(),
    }
}

/// What a nonblocking read does first on a connection in `state`: fail without a peer,
/// wait for the read in flight, or start a new one.
pub open spec fn read_step_for<W>(state: PipeConnectionView<W>) -> ReadStep {
    if !state.connected {
        ReadStep::NotConnected
    } else if state.reading {
        ReadStep::AwaitRead
    } else {
        ReadStep::StartRead
    }
}

/// A disconnect forgets everything of the peer it drops: afterwards nothing is connected,
/// no read or write is in flight and nothing received is kept, only the side stays; so
/// once the next peer connects, reading starts afresh instead of waiting on a read of
/// the old one.
pub proof fn lemma_disconnect_forgets_the_peer<W>(state: PipeConnectionView<W>)
    ensures
        !disconnected(state).connected,
        !disconnected(state).reading,
        disconnected(state).pending_writes.len() == 0,
        disconnected(state).received.len() == 0,
        disconnected(state).server == state.server,
        read_step_for(disconnected(state)) == ReadStep::NotConnected,
        read_step_for(PipeConnectionView { connected: true, ..disconnected(state) })
            == ReadStep::StartRead,
{
}

/// What a nonblocking read does first.
#[derive(Clone, Copy, Debug, PartialEq, Eq, Structural)]
pub enum ReadStep {
    /// No peer is connected: the read fails.
    NotConnected,
    /// A read is in flight: ask whether it completed.
    AwaitRead,
    /// Start a new read into the receive buffer.
    StartRead,
}

/// Where a read stands after the system reported on it.
#[derive(Clone, Copy, Debug, PartialEq, Eq, Structural)]
pub enum ReadProgress {
    /// The read completed: decode what arrived.
    Decode,
    /// The read still runs.
    Wait,
    /// The read failed with this error code; the connection was dropped.
    Failed(u32),
}

impl<W> PipeConnection<W> {
    /// The receive buffer is in order.
    pub closed spec fn wf(&self) -> bool {
        self.buffer.wf()
    }

    /// The storage after the received bytes, which reads are written into.
    pub closed spec fn spare(&self) -> Seq<u8> {
        self.buffer.spare()
    }

    /// A new end of the pipe: a server waits for its client, a client is connected.
    pub fn new(server: bool) -> (connection: Self)
        ensures
            connection.wf(),
            connection@ == (PipeConnectionView::<W> {
                server,
                connected: !server,
                reading: false,
                pending_writes: Seq::empty(),
                received: Seq::empty(),
            }),
    {
        PipeConnection {
            server,
            connected: !server,
            reading: false,
            pending_writes: Vec::new(),
            buffer: IPCBuffer::new(),
        }
    }

    /// This end created the pipe.
    pub fn is_server(&self) -> (server: bool)
        ensures
            server == self@.server,
    {
        self.server
    }

    /// A peer is connected.
    pub fn is_connected(&self) -> (connected: bool)
        ensures
            connected == self@.connected,
    {
        self.connected
    }

    /// Drops the peer: nothing is connected, in flight or received any more.
    pub fn disconnect(&mut self)
        ensures
            final(self).wf(),
            final(self)@ == disconnected(old(self)@),
    {
        self.connected = false;
        self.reading = false;
        self.pending_writes = Vec::new();
        self.buffer.flush();
    }

    /// Whether a server has to ask the system for a client: only while none is connected.
    pub fn accept_needed(&self) -> (needed: bool)
        requires
            self@.server,
        ensures
            needed == !self@.connected,
    {
        !self.connected
    }

    /// Takes in what asking for a client came to; tells whether a client is connected
    /// now, or the error code of a failure.
    pub fn accept_result(&mut self, outcome: AcceptOutcome) -> (result: Result<bool, u32>)
        requires
            old(self).wf(),
            old(self)@.server,
            !old(self)@.connected,
        ensures
            final(self).wf(),
            match outcome {
                AcceptOutcome::Connected => result == Ok::<bool, u32>(true) && final(self)@
                    == (PipeConnectionView { connected: true, ..old(self)@ }),
                AcceptOutcome::Pending => result == Ok::<bool, u32>(false) && final(self)@ == old(self)@,
                AcceptOutcome::ClientVanished => result == Ok::<bool, u32>(false) && final(self)@
                    == disconnected(old(self)@),
                AcceptOutcome::Failed(code) => result == Err::<bool, u32>(code) && final(self)@
                    == old(self)@,
            },
    {
        match outcome {
            AcceptOutcome::Connected => {
                self.connected = true;
                Ok(true)
            },
            AcceptOutcome::Pending => Ok(false),
            AcceptOutcome::ClientVanished => {
                self.disconnect();
                Ok(false)
            },
            AcceptOutcome::Failed(code) => Err(code),
        }
    }

    /// What a nonblocking read does first.
    pub fn read_step(&self) -> (step: ReadStep)
        ensures
            step == read_step_for(self@),
            step == if !self@.connected {
                ReadStep::NotConnected
            } else if self@.reading {
                ReadStep::AwaitRead
            } else {
                ReadStep::StartRead
            },
    {
        if !self.connected {
            ReadStep::NotConnected
        } else if self.reading {
            ReadStep::AwaitRead
        } else {
            ReadStep::StartRead
        }
    }

    /// Makes room for a read after the received bytes and returns the storage the read
    /// is to fill, as [`IPCBuffer::prepare_transfer_buffer`] does.
    pub fn transfer_window(&mut self) -> (window: &mut [u8])
        requires
            old(self).wf(),
            old(self)@.received.len() + old(self).spare().len() + TRANSFER_WINDOW <= usize::MAX,
        ensures
            final(self).wf(),
            final(self)@ == old(self)@,
            window@ == if old(self).spare().len() < TRANSFER_WINDOW {
                old(self).spare() + Seq::new(TRANSFER_WINDOW as nat, |i: int| 0u8)
            } else {
                old(self).spare()
            },
            final(self).spare() == final(window)@,
    {
        self.buffer.prepare_transfer_buffer()
    }

    /// Takes in what starting a read, or asking about the read in flight, came to; a
    /// completed read put `transferred` bytes at the start of the spare storage.
    pub fn read_result(&mut self, outcome: TransferOutcome, transferred: usize) -> (progress:
        ReadProgress)
        requires
            old(self).wf(),
            old(self)@.connected,
            outcome is Completed ==> transferred <= old(self).spare().len(),
        ensures
            final(self).wf(),
            match outcome {
                TransferOutcome::Completed => progress == ReadProgress::Decode && final(self)@ == (
                PipeConnectionView {
                    reading: false,
                    received: old(self)@.received + old(self).spare().take(transferred as int),
                    ..old(self)@
                }),
                TransferOutcome::InProgress => progress == ReadProgress::Wait && final(self)@ == (
                PipeConnectionView { reading: true, ..old(self)@ }),
                TransferOutcome::Failed(code) => progress == ReadProgress::Failed(code) && final(self)@
                    == disconnected(old(self)@),
            },
    {
        match outcome {
            TransferOutcome::Completed => {
                self.reading = false;
                self.buffer.mark_transferred(transferred);
                ReadProgress::Decode
            },
            TransferOutcome::InProgress => {
                self.reading = true;
                ReadProgress::Wait
            },
            TransferOutcome::Failed(code) => {
                self.disconnect();
                ReadProgress::Failed(code)
            },
        }
    }

    /// Decodes the messages received. When decoding fails, the peer is dropped and
    /// everything received is discarded, and the failure is returned.
    pub fn decode_available<R, E, F>(&mut self, decode: F) -> (result: Result<Vec<R>, E>) where
        F: Fn(&[u8]) -> DecodeOutcome<R, E>
        requires
            old(self).wf(),
            forall|s: &[u8]| #[trigger] decode.requires((s,)),
            forall|s: &[u8], o: DecodeOutcome<R, E>|
                #[trigger] decode.ensures((s,), o) ==> (o matches DecodeOutcome::Decoded(_, n)
                    ==> 1 <= n <= s@.len()),
        ensures
            final(self).wf(),
            result matches Ok(messages) ==> {
                &&& final(self)@ == (PipeConnectionView { received: final(self)@.received, ..old(self)@ })
                &&& exists|sizes: Seq<usize>|
                    #[trigger] decodes_as(
                        decode,
                        old(self)@.received,
                        messages@,
                        sizes,
                        final(self)@.received,
                    )
                &&& final(self)@.received.len() == 0 || outcome_of(
                    decode,
                    final(self)@.received,
                    DecodeOutcome::Incomplete,
                )
            },
            result matches Err(error) ==> {
                &&& final(self)@ == disconnected(old(self)@)
                &&& exists|rest: Seq<u8>, messages: Seq<R>, sizes: Seq<usize>|
                    #[trigger] decodes_as(decode, old(self)@.received, messages, sizes, rest)
                        && outcome_of(decode, rest, DecodeOutcome::Failed(error))
            },
    {
        let ghost before = self.buffer@;
        assert(before == old(self)@.received);
        let result = self.buffer.decode_available_messages(decode);
        match result {
            Ok(messages) => {
                proof {
                    let z = choose|z: Seq<usize>|
                        #[trigger] decodes_as(decode, before, messages@, z, self.buffer@);
                    assert(decodes_as(decode, old(self)@.received, messages@, z, self@.received));
                    assert(self@ == (PipeConnectionView { received: self@.received, ..old(self)@ }));
                }
                Ok(messages)
            },
            Err(error) => {
                let ghost rest = self.buffer@;
                proof {
                    let (m, z) = choose|m: Seq<R>, z: Seq<usize>|
                        #[trigger] decodes_as(decode, old(self)@.received, m, z, rest);
                    assert(decodes_as(decode, old(self)@.received, m, z, rest) && outcome_of(
                        decode,
                        rest,
                        DecodeOutcome::Failed(error),
                    ));
                }
                self.disconnect();
                Err(error)
            },
        }
    }

    /// Takes in what starting the write of `write` came to: a write still in flight is
    /// kept until it completes.
    pub fn write_result(&mut self, outcome: TransferOutcome, write: W) -> (result: Result<(), u32>)
        requires
            old(self).wf(),
            old(self)@.connected,
        ensures
            final(self).wf(),
            match outcome {
                TransferOutcome::Completed => result == Ok::<(), u32>(()) && final(self)@ == old(self)@,
                TransferOutcome::InProgress => result == Ok::<(), u32>(()) && final(self)@ == (
                PipeConnectionView {
                    pending_writes: old(self)@.pending_writes.push(write),
                    ..old(self)@
                }),
                TransferOutcome::Failed(code) => result == Err::<(), u32>(code) && final(self)@
                    == disconnected(old(self)@),
            },
    {
        match outcome {
            TransferOutcome::Completed => Ok(()),
            TransferOutcome::InProgress => {
                self.pending_writes.push(write);
                Ok(())
            },
            TransferOutcome::Failed(code) => {
                self.disconnect();
                Err(code)
            },
        }
    }

    /// How many writes are in flight.
    pub fn pending_write_count(&self) -> (count: usize)
        ensures
            count == self@.pending_writes.len(),
    {
        self.pending_writes.len()
    }

    /// The write in flight at `index`.
    pub fn pending_write(&self, index: usize) -> (write: &W)
        requires
            index < self@.pending_writes.len(),
        ensures
            *write == self@.pending_writes[index as int],
    {
        &self.pending_writes[index]
    }

    /// Takes in what asking about the write in flight at `index` came to: a completed
    /// write is forgotten, one still running is kept, and a failed one drops the peer
    /// (and with it every write and every received byte) and returns the failure.
    pub fn pending_write_result(&mut self, index: usize, outcome: TransferOutcome) -> (result:
        Result<(), u32>)
        requires
            old(self).wf(),
            index < old(self)@.pending_writes.len(),
        ensures
            final(self).wf(),
            match outcome {
                TransferOutcome::Completed => result == Ok::<(), u32>(()) && final(self)@ == (
                PipeConnectionView {
                    pending_writes: old(self)@.pending_writes.remove(index as int),
                    ..old(self)@
                }),
                TransferOutcome::InProgress => result == Ok::<(), u32>(()) && final(self)@ == old(self)@,
                TransferOutcome::Failed(code) => result == Err::<(), u32>(code) && final(self)@
                    == disconnected(old(self)@),
            },
    {
        match outcome {
            TransferOutcome::Completed => {
                self.pending_writes.remove(index);
                Ok(())
            },
            TransferOutcome::InProgress => Ok(()),
            TransferOutcome::Failed(code) => {
                self.disconnect();
                Err(code)
            },
        }
    }
}

/// What the poll-driven pipe does with an event of its pipe.
#[derive(Clone, Copy, Debug, PartialEq, Eq, Structural)]
pub enum PollEventStep {
    /// The client went away: drop it and make the pipe ready for the next client.
    ReopenPipe,
    /// The server went away: drop the connection and report it as disconnected.
    ReportDisconnected,
    /// Read what arrived and decode the complete messages in it.
    ReadAndDecode,
    /// The pipe became writable on a server: a client is connected now.
    MarkConnected,
    /// The pipe became writable on a client: write out what waits to be sent.
    WriteOut,
    /// Nothing to do.
    Ignore,
}

/// What the poll-driven pipe does with an event of its pipe, by its side and by what
/// the event reports: a closed direction ends the connection first, then a readable
/// pipe is read, then a writable one is used.
pub fn poll_event_step(server: bool, read_closed: bool, write_closed: bool, readable: bool, writable: bool) -> (step: PollEventStep)
    ensures
        step == if read_closed || write_closed {
            if server {
                PollEventStep::ReopenPipe
            } else {
                PollEventStep::ReportDisconnected
            }
        } else if readable {
            PollEventStep::ReadAndDecode
        } else if writable {
            if server {
                PollEventStep::MarkConnected
            } else {
                PollEventStep::WriteOut
            }
        } else {
            PollEventStep::Ignore
        },
{
    if read_closed || write_closed {
        if server {
            PollEventStep::ReopenPipe
        } else {
            PollEventStep::ReportDisconnected
        }
    } else if readable {
        PollEventStep::ReadAndDecode
    } else if writable {
        if server {
            PollEventStep::MarkConnected
        } else {
            PollEventStep::WriteOut
        }
    } else {
        PollEventStep::Ignore
    }
}

/// `WM_DESTROY`.
pub const WM_DESTROY: u32 = 0x0002;

/// `WM_QUIT`.
pub const WM_QUIT: u32 = 0x0012;

/// `WM_NCCREATE`.
pub const WM_NCCREATE: u32 = 0x0081;

/// Who handles a message sent to the shell integration window.
#[derive(Clone, Copy, Debug, PartialEq, Eq, Structural)]
pub enum WindowMessageRoute {
    /// The window is being created: create its shell integration, let it handle the
    /// message, and attach it to the window.
    CreateIntegration,
    /// The window is being destroyed: detach its shell integration, let it handle
    /// the message, and drop it.
    DestroyIntegration,
    /// Any other message: the attached shell integration handles it.
    ToIntegration,
}

/// Who handles the window message `message`.
pub fn route_window_message(message: u32) -> (route: WindowMessageRoute)
    ensures
        route == if message == WM_NCCREATE {
            WindowMessageRoute::CreateIntegration
        } else if message == WM_DESTROY {
            WindowMessageRoute::DestroyIntegration
        } else {
            WindowMessageRoute::ToIntegration
        },
{
    if message == WM_NCCREATE {
        WindowMessageRoute::CreateIntegration
    } else if message == WM_DESTROY {
        WindowMessageRoute::DestroyIntegration
    } else {
        WindowMessageRoute::ToIntegration
    }
}

/// What came of handing a window message to the shell integration.
pub enum IntegrationReply<E> {
    /// The window is being created and its shell integration could not be created.
    CreationFailed,
    /// No shell integration handles this window.
    NoIntegration,
    /// The shell integration handled the message: its result, or why it failed.
    Replied(Result<isize, E>),
    /// Handling the message panicked.
    Panicked,
}

/// How the window procedure answers a message.
#[derive(Clone, Copy, Debug, PartialEq, Eq, Structural)]
pub enum WindowAnswer {
    /// Answer with this result.
    Answer(isize),
    /// Answer with what the default window procedure gives.
    DefaultProcedure,
    /// Post a quit message with exit code 1, then answer with what the default window
    /// procedure gives.
    QuitAndDefaultProcedure,
}

/// How the window procedure answers, by what the shell integration made of the
/// message: a failed creation answers 0, a result is answered as it is, a failure or a
/// window without integration falls back to the default window procedure, and a panic
/// also asks the message loop to quit.
pub fn window_answer<E>(reply: IntegrationReply<E>) -> (answer: WindowAnswer)
    ensures
        answer == match reply {
            IntegrationReply::CreationFailed => WindowAnswer::Answer(0),
            IntegrationReply::NoIntegration => WindowAnswer::DefaultProcedure,
            IntegrationReply::Replied(Ok(value)) => WindowAnswer::Answer(value),
            IntegrationReply::Replied(Err(_)) => WindowAnswer::DefaultProcedure,
            IntegrationReply::Panicked => WindowAnswer::QuitAndDefaultProcedure,
        },
{
    match reply {
        IntegrationReply::CreationFailed => WindowAnswer::Answer(0),
        IntegrationReply::NoIntegration => WindowAnswer::DefaultProcedure,
        IntegrationReply::Replied(Ok(value)) => WindowAnswer::Answer(value),
        IntegrationReply::Replied(Err(_)) => WindowAnswer::DefaultProcedure,
        IntegrationReply::Panicked => WindowAnswer::QuitAndDefaultProcedure,
    }
}

/// Message processing goes on after `message`; it stops at `WM_QUIT`.
pub fn keeps_running_after(message: u32) -> (running: bool)
    ensures
        running == (message != WM_QUIT),
{
    message != WM_QUIT
}

} // verus!
