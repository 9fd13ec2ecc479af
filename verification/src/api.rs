//! The control panel side: the events its native API reports, the log levels it
//! accepts, and the argument markers of its method channel handlers.

use vstd::prelude::*;

use crate::text::same_text;

use crate::protocol::ServerMessage;

verus! {

/// The state of a connection to a host.
#[derive(Clone, Copy, Debug, PartialEq, Eq, Structural)]
pub enum SnowlandAPIConnectionState {
    /// The connection is connected.
    Connected,
    /// The connection is disconnected.
    Disconnected,
}

/// An event the API reports to its user.
#[derive(Debug)]
pub enum SnowlandAPIEvent {
    /// A poll finished; the user may now process its own events.
    DispatchRuntimeEvent,
    /// The instance numbers of all running hosts. Always reported on connection `0`.
    AliveInstances(Vec<usize>),
    /// The state of a connection changed.
    ConnectionStateChanged(SnowlandAPIConnectionState),
    /// Shutdown was requested.
    Shutdown,
}

/// The events of one poll, each with the connection it concerns.
#[derive(Debug)]
pub struct SnowlandAPIEvents {
    inner: Vec<(usize, SnowlandAPIEvent)>,
}

impl View for SnowlandAPIEvents {
    type V = Seq<(usize, SnowlandAPIEvent)>;

    closed spec fn view(&self) -> Seq<(usize, SnowlandAPIEvent)> {
        self.inner@
    }
}

impl SnowlandAPIEvents {
    /// Wraps the events of a poll.
    pub fn new(events: Vec<(usize, SnowlandAPIEvent)>) -> (wrapped: Self)
        ensures
            wrapped@ == events@,
    {
        Self { inner: events }
    }

    /// Unwraps the events.
    pub fn into_inner(self) -> (events: Vec<(usize, SnowlandAPIEvent)>)
        ensures
            events@ == self@,
    {
        self.inner
    }

    /// How many events there are.
    pub fn event_count(&self) -> (count: usize)
        ensures
            count == self@.len(),
    {
        self.inner.len()
    }

    /// The connection the event at `index` concerns.
    pub fn event_connection_id(&self, index: usize) -> (connection: usize)
        requires
            index < self@.len(),
        ensures
            connection == self@[index as int].0,
    {
        self.inner[index].0
    }

    /// The event at `index`.
    pub fn event_data(&self, index: usize) -> (event: &SnowlandAPIEvent)
        requires
            index < self@.len(),
        ensures
            *event == self@[index as int].1,
    {
        &self.inner[index].1
    }
}

impl From<Vec<(usize, SnowlandAPIEvent)>> for SnowlandAPIEvents {
    fn from(events: Vec<(usize, SnowlandAPIEvent)>) -> (wrapped: Self)
        ensures
            wrapped@ == events@,
    {
        SnowlandAPIEvents { inner: events }
    }
}

impl vstd::std_specs::convert::FromSpecImpl<Vec<(usize, SnowlandAPIEvent)>> for SnowlandAPIEvents {
    open spec fn obeys_from_spec() -> bool {
        true
    }

    closed spec fn from_spec(events: Vec<(usize, SnowlandAPIEvent)>) -> Self {
        SnowlandAPIEvents { inner: events }
    }
}

impl From<SnowlandAPIEvents> for Vec<(usize, SnowlandAPIEvent)> {
    fn from(events: SnowlandAPIEvents) -> (unwrapped: Self)
        ensures
            unwrapped@ == events@,
    {
        events.inner
    }
}

impl vstd::std_specs::convert::FromSpecImpl<SnowlandAPIEvents> for Vec<(usize, SnowlandAPIEvent)> {
    open spec fn obeys_from_spec() -> bool {
        true
    }

    closed spec fn from_spec(events: SnowlandAPIEvents) -> Self {
        events.inner
    }
}

/// A request sent to the API's run loop.
#[derive(Clone, Copy, Debug, PartialEq, Eq, Structural)]
pub enum SnowlandAPIMessage {
    /// List the running hosts.
    ListAlive,
    /// Connect to the host with this instance number.
    Connect(usize),
    /// Close the connection to the host with this instance number.
    Disconnect(usize),
    /// Stop the run loop.
    Shutdown,
}

/// The connection that each poll event is offered to, whatever connections are open.
pub const POLLED_CONNECTION: usize = 1;

/// The open connections of the API, by the instance number of their host.
pub struct ApiConnections<C> {
    open: std::collections::HashMap<usize, C>,
}

impl<C> View for ApiConnections<C> {
    type V = Map<usize, C>;

    closed spec fn view(&self) -> Map<usize, C> {
        self.open@
    }
}

impl<C> ApiConnections<C> {
    /// No connection open.
    pub fn new() -> (connections: Self)
        ensures
            connections@ == Map::<usize, C>::empty(),
    {
        ApiConnections { open: std::collections::HashMap::new() }
    }

    /// Keeps `connection` as the one to `instance`, in place of any open before.
    pub fn opened(&mut self, instance: usize, connection: C)
        ensures
            final(self)@ == old(self)@.insert(instance, connection),
    {
        broadcast use vstd::std_specs::hash::group_hash_axioms;

        self.open.insert(instance, connection);
    }

    /// Takes the connection to `instance` out, if one is open.
    pub fn take(&mut self, instance: usize) -> (connection: Option<C>)
        ensures
            final(self)@ == old(self)@.remove(instance),
            old(self)@.contains_key(instance) ==> connection == Some(old(self)@[instance]),
            !old(self)@.contains_key(instance) ==> connection is None,
    {
        broadcast use vstd::std_specs::hash::group_hash_axioms;

        self.open.remove(&instance)
    }
}

/// The outside work a request to the run loop asks for.
pub enum ApiRequest<C> {
    /// List the running hosts and report them with [`PollRound::alive_listed`].
    ListAlive,
    /// Connect to this host, then keep the connection with [`ApiConnections::opened`], or
    /// report the failure with [`PollRound::connect_failed`].
    Connect(usize),
    /// Close this connection, which was taken out of the open ones; `None` when no
    /// connection to the host was open.
    Close(Option<C>),
    /// Nothing.
    Nothing,
}

/// The events of one poll, gathered while the run loop handles what the poll reported.
pub struct PollRound {
    events: Vec<(usize, SnowlandAPIEvent)>,
    shutdown: bool,
}

impl View for PollRound {
    type V = (Seq<(usize, SnowlandAPIEvent)>, bool);

    /// The events gathered so far, and whether shutdown was requested.
    closed spec fn view(&self) -> (Seq<(usize, SnowlandAPIEvent)>, bool) {
        (self.events@, self.shutdown)
    }
}

/// The events a round reports: those it gathered, then `Shutdown` on connection `0`
/// where shutdown was requested.
pub open spec fn reported_events(gathered: Seq<(usize, SnowlandAPIEvent)>, shutdown: bool) -> Seq<
    (usize, SnowlandAPIEvent),
> {
    if shutdown {
        gathered.push((0, SnowlandAPIEvent::Shutdown))
    } else {
        gathered
    }
}

impl PollRound {
    /// A round with no events yet.
    pub fn new() -> (round: Self)
        ensures
            round@.0 == Seq::<(usize, SnowlandAPIEvent)>::empty(),
            !round@.1,
    {
        PollRound { events: Vec::new(), shutdown: false }
    }

    /// The running hosts were listed: reports them on connection `0`.
    pub fn alive_listed(&mut self, alive: Vec<usize>)
        ensures
            final(self)@.0 == old(self)@.0.push((0, SnowlandAPIEvent::AliveInstances(alive))),
            final(self)@.1 == old(self)@.1,
    {
        self.events.push((0, SnowlandAPIEvent::AliveInstances(alive)));
    }

    /// Connecting to `instance` failed: reports that connection as disconnected.
    pub fn connect_failed(&mut self, instance: usize)
        ensures
            final(self)@.0 == old(self)@.0.push(
                (
                    instance,
                    SnowlandAPIEvent::ConnectionStateChanged(
                        SnowlandAPIConnectionState::Disconnected,
                    ),
                ),
            ),
            final(self)@.1 == old(self)@.1,
    {
        self.events.push(
            (instance, SnowlandAPIEvent::ConnectionStateChanged(SnowlandAPIConnectionState::Disconnected)),
        );
    }

    /// Shutdown was requested; it is reported when the round ends.
    pub fn shutdown_requested(&mut self)
        ensures
            final(self)@.0 == old(self)@.0,
            final(self)@.1,
    {
        self.shutdown = true;
    }

    /// Ends the round with the events it reports.
    pub fn finish(self) -> (events: SnowlandAPIEvents)
        ensures
            events@ == reported_events(self@.0, self@.1),
    {
        let mut events = self.events;
        if self.shutdown {
            events.push((0, SnowlandAPIEvent::Shutdown));
        }
        SnowlandAPIEvents::new(events)
    }

    /// Handles one request to the run loop: shutdown is recorded for the end of the
    /// round, a disconnect takes the connection out of the open ones, and listing and
    /// connecting are handed back as outside work.
    pub fn handle_message<C>(&mut self, message: SnowlandAPIMessage, connections: &mut ApiConnections<
        C,
    >) -> (request: ApiRequest<C>)
        ensures
            final(self)@.0 == old(self)@.0,
            final(self)@.1 == (old(self)@.1 || message is Shutdown),
            match message {
                SnowlandAPIMessage::ListAlive => request is ListAlive && final(connections)@ == old(
                    connections,
                )@,
                SnowlandAPIMessage::Connect(instance) => request == ApiRequest::<C>::Connect(
                    instance,
                ) && final(connections)@ == old(connections)@,
                SnowlandAPIMessage::Disconnect(instance) => final(connections)@ == old(
                    connections,
                )@.remove(instance) && request == ApiRequest::Close(
                    if old(connections)@.contains_key(instance) {
                        Some(old(connections)@[instance])
                    } else {
                        None
                    },
                ),
                SnowlandAPIMessage::Shutdown => request is Nothing && final(connections)@ == old(
                    connections,
                )@,
            },
    {
        match message {
            SnowlandAPIMessage::ListAlive => ApiRequest::ListAlive,
            SnowlandAPIMessage::Connect(instance) => ApiRequest::Connect(instance),
            SnowlandAPIMessage::Disconnect(instance) => ApiRequest::Close(connections.take(instance)),
            SnowlandAPIMessage::Shutdown => {
                self.shutdown_requested();
                ApiRequest::Nothing
            },
        }
    }

    /// Whether the polled connection is closed after an event: exactly when it took the
    /// event and failed to process it.
    pub fn drops_connection(consumed: bool, processed: bool) -> (drop: bool)
        ensures
            drop == (consumed && !processed),
    {
        consumed && !processed
    }
}

/// A requested shutdown is reported once, as the last event of its round, on connection
/// `0`; the events gathered before it keep their order.
pub proof fn lemma_shutdown_reported_last(gathered: Seq<(usize, SnowlandAPIEvent)>)
    ensures
        reported_events(gathered, true).len() == gathered.len() + 1,
        reported_events(gathered, true).last() == (0usize, SnowlandAPIEvent::Shutdown),
        reported_events(gathered, true).take(gathered.len() as int) == gathered,
        reported_events(gathered, false) == gathered,
{
    assert(reported_events(gathered, true).take(gathered.len() as int) =~= gathered);
}

/// The log levels the control panel uses.
#[derive(Clone, Copy, Debug, PartialEq, Eq, Structural)]
pub enum LogLevel {
    Trace,
    Debug,
    Info,
    Warn,
    Error,
}

/// The level a log request names: one of the five level names, and `Error` for
/// anything else.
pub open spec fn level_named(name: Seq<char>) -> LogLevel {
    if name == "trace"@ {
        LogLevel::Trace
    } else if name == "debug"@ {
        LogLevel::Debug
    } else if name == "info"@ {
        LogLevel::Info
    } else if name == "warn"@ {
        LogLevel::Warn
    } else {
        LogLevel::Error
    }
}

impl LogLevel {
    /// The level a log request names.
    pub fn from_name(name: &str) -> (level: Self)
        ensures
            level == level_named(name@),
    {
        if same_text(name, "trace") {
            LogLevel::Trace
        } else if same_text(name, "debug") {
            LogLevel::Debug
        } else if same_text(name, "info") {
            LogLevel::Info
        } else if same_text(name, "warn") {
            LogLevel::Warn
        } else {
            LogLevel::Error
        }
    }
}

/// The method channel that greets; used to check the channel plumbing.
pub struct TestCommunicationChannel;

/// The log target of a message the native API logs for a component of the user
/// interface: `[[dart]]::` and the component.
pub fn api_log_target(component: &str) -> (target: String)
    ensures
        target@ == "[[dart]]::"@ + component@,
{
    let mut target = "[[dart]]::".to_owned();
    target.append(component);
    target
}

/// The log target of a message the method channel logs for a component of the user
/// interface: `{{dart}}::` and the component.
pub fn channel_log_target(component: &str) -> (target: String)
    ensures
        target@ == "{{dart}}::"@ + component@,
{
    let mut target = "{{dart}}::".to_owned();
    target.append(component);
    target
}

/// The state of the control panel's IPC dispatcher.
#[derive(Debug)]
pub enum IPCDispatcherState<E> {
    NotRunning,
    Running,
    Errored(E),
}

/// Two dispatcher states are the same state, whatever errors they carry.
pub open spec fn same_dispatcher_state<E>(a: IPCDispatcherState<E>, b: IPCDispatcherState<E>) -> bool {
    match (a, b) {
        (IPCDispatcherState::NotRunning, IPCDispatcherState::NotRunning) => true,
        (IPCDispatcherState::Running, IPCDispatcherState::Running) => true,
        (IPCDispatcherState::Errored(_), IPCDispatcherState::Errored(_)) => true,
        _ => false,
    }
}

impl<E> IPCDispatcherState<E> {
    /// The dispatcher is running.
    pub fn is_running(&self) -> (running: bool)
        ensures
            running == (*self is Running),
    {
        match self {
            IPCDispatcherState::Running => true,
            _ => false,
        }
    }
}

impl<E> PartialEq for IPCDispatcherState<E> {
    /// `self` and `other` are the same state, whatever errors they carry.
    fn eq(&self, other: &Self) -> (same: bool) {
        match (self, other) {
            (IPCDispatcherState::NotRunning, IPCDispatcherState::NotRunning) => true,
            (IPCDispatcherState::Running, IPCDispatcherState::Running) => true,
            (IPCDispatcherState::Errored(_), IPCDispatcherState::Errored(_)) => true,
            _ => false,
        }
    }
}

impl<E> vstd::std_specs::cmp::PartialEqSpecImpl for IPCDispatcherState<E> {
    open spec fn obeys_eq_spec() -> bool {
        true
    }

    open spec fn eq_spec(&self, other: &Self) -> bool {
        same_dispatcher_state(*self, *other)
    }
}

impl<E> IPCDispatcherState<E> {
    /// The state a dispatcher run ends in: not running after a clean finish, errored
    /// with the error that ended it otherwise.
    pub fn after_run(result: Result<(), E>) -> (state: Self)
        ensures
            match result {
                Ok(()) => state is NotRunning,
                Err(error) => state == IPCDispatcherState::Errored(error),
            },
    {
        match result {
            Ok(()) => IPCDispatcherState::NotRunning,
            Err(error) => IPCDispatcherState::Errored(error),
        }
    }
}

/// The poll token of the waker through which the user interface reaches the dispatcher.
pub const IPC_DISPATCHER_WAKER_TOKEN: usize = 0;

/// A request from the user interface to the IPC dispatcher.
pub enum InternalMessage<M> {
    /// Send this message to the host.
    SendIPC(M),
    /// Stop the dispatcher.
    Shutdown,
}

impl<M> InternalMessage<M> {
    /// What the dispatcher does with a request: a message to send is written to the
    /// host, and shutdown ends the dispatcher cleanly (`None`).
    pub fn into_outgoing(self) -> (outgoing: Option<M>)
        ensures
            match self {
                InternalMessage::SendIPC(message) => outgoing == Some(message),
                InternalMessage::Shutdown => outgoing is None,
            },
    {
        match self {
            InternalMessage::SendIPC(message) => Some(message),
            InternalMessage::Shutdown => None,
        }
    }
}

/// How the dispatcher goes on after trying to connect to the host.
#[derive(Clone, Copy, Debug, PartialEq, Eq, Structural)]
pub enum DispatcherStart {
    /// Connected: register the connection, report running, and serve.
    Run,
    /// No host is running: end without error and without ever reporting running.
    FinishCleanly,
    /// Any other failure: end with that error.
    Fail,
}

/// How the dispatcher goes on after trying to connect: `connected` tells whether the
/// attempt succeeded, `host_missing` whether it failed because no host listens.
pub fn dispatcher_start(connected: bool, host_missing: bool) -> (start: DispatcherStart)
    ensures
        start == if connected {
            DispatcherStart::Run
        } else if host_missing {
            DispatcherStart::FinishCleanly
        } else {
            DispatcherStart::Fail
        },
{
    if connected {
        DispatcherStart::Run
    } else if host_missing {
        DispatcherStart::FinishCleanly
    } else {
        DispatcherStart::Fail
    }
}

/// Who handles an event the dispatcher's poll reported.
#[derive(Clone, Copy, Debug, PartialEq, Eq, Structural)]
pub enum DispatcherEventRoute {
    /// The IPC connection.
    Ipc,
    /// The waker woke: a request from the user interface waits.
    Request,
    /// Nobody; the event is unexpected.
    Unexpected,
}

/// Who handles an event: the connection, if it takes the event, else the request
/// channel, if the event is its waker becoming readable.
pub fn dispatcher_event_route(taken_by_ipc: bool, token: usize, readable: bool) -> (route:
    DispatcherEventRoute)
    ensures
        route == if taken_by_ipc {
            DispatcherEventRoute::Ipc
        } else if token == IPC_DISPATCHER_WAKER_TOKEN && readable {
            DispatcherEventRoute::Request
        } else {
            DispatcherEventRoute::Unexpected
        },
{
    if taken_by_ipc {
        DispatcherEventRoute::Ipc
    } else if token == IPC_DISPATCHER_WAKER_TOKEN && readable {
        DispatcherEventRoute::Request
    } else {
        DispatcherEventRoute::Unexpected
    }
}

/// How a message from the host reaches the user interface.
#[derive(Clone, Copy, Debug, PartialEq, Eq)]
pub enum UiDelivery {
    /// As a call of the method with this name on the native-to-dart channel.
    Method(&'static str),
    /// As an event on the event channel with this name.
    Event(&'static str),
    /// Not at all.
    Nothing,
}

/// How a message from the host reaches the user interface: a new configuration as a
/// call of `update_configuration`, new displays as an `ipc_display_event`, and a
/// heartbeat not at all.
pub fn server_message_delivery(message: &ServerMessage) -> (delivery: UiDelivery)
    ensures
        delivery == match *message {
            ServerMessage::UpdateConfiguration(_) => UiDelivery::Method("update_configuration"),
            ServerMessage::UpdateDisplays(_) => UiDelivery::Event("ipc_display_event"),
            ServerMessage::Heartbeat => UiDelivery::Nothing,
        },
{
    match message {
        ServerMessage::UpdateConfiguration(_) => UiDelivery::Method("update_configuration"),
        ServerMessage::UpdateDisplays(_) => UiDelivery::Event("ipc_display_event"),
        ServerMessage::Heartbeat => UiDelivery::Nothing,
    }
}

/// Being the same state is an equivalence.
pub proof fn lemma_same_state_equivalence<E>(
    a: IPCDispatcherState<E>,
    b: IPCDispatcherState<E>,
    c: IPCDispatcherState<E>,
)
    ensures
        same_dispatcher_state(a, a),
        same_dispatcher_state(a, b) ==> same_dispatcher_state(b, a),
        same_dispatcher_state(a, b) && same_dispatcher_state(b, c) ==> same_dispatcher_state(a, c),
{
}

} // verus!
