//! The window manager's event socket: where it is, what its lines mean,
//! and the listener that follows it and reconnects when it goes away.
//!
//! The listener itself does no I/O.  It is told what happened (a connect
//! attempt ended, a line arrived, the stream ended, the backoff elapsed)
//! and answers with the event to forward, if there is one, and with what
//! to do next.

use crate::number::read_i32;
use crate::text::{copy_range, find, find_from, lemma_find_bounds, parse_i32, starts_with};
use crate::workspaces::WorkspacesModule;
use vstd::prelude::*;
use vstd::string::*;

verus! {

/// One workspace as the window manager reports it.
#[derive(Clone, Copy, Debug)]
pub struct WorkspaceData {
    pub id: i32,
}

/// The active workspace as the window manager reports it.
#[derive(Clone, Copy, Debug)]
pub struct ActiveWorkspaceData {
    pub id: i32,
}

/// What travels from the workers to the reducer.
#[derive(Debug)]
pub enum IpcEvent {
    /// The focus moved to the workspace with this id.
    WorkspaceChanged(i32),
    /// A workspace was created or destroyed: the list has to be fetched
    /// again.
    WorkspacesListChanged,
    /// A full state: every workspace, and the id of the active one.
    DataRefreshed(Vec<WorkspaceData>, i32),
    /// A worker failed; the message says how.
    Error(String),
}

/// An [`IpcEvent`] as a mathematical value.
pub enum IpcEventView {
    WorkspaceChanged(i32),
    WorkspacesListChanged,
    DataRefreshed(Seq<WorkspaceData>, i32),
    Error(Seq<char>),
}

impl View for IpcEvent {
    type V = IpcEventView;

    open spec fn view(&self) -> IpcEventView {
        match self {
            IpcEvent::WorkspaceChanged(id) => IpcEventView::WorkspaceChanged(*id),
            IpcEvent::WorkspacesListChanged => IpcEventView::WorkspacesListChanged,
            IpcEvent::DataRefreshed(all, active) => IpcEventView::DataRefreshed(all@, *active),
            IpcEvent::Error(message) => IpcEventView::Error(message@),
        }
    }
}

/// The view of an optional event.
pub open spec fn event_view(e: Option<IpcEvent>) -> Option<IpcEventView> {
    match e {
        Some(e) => Some(e@),
        None => None,
    }
}

/// The separator between the keyword and the payload of a line.
pub open spec fn separator() -> Seq<u8> {
    ">>".spec_bytes()
}

/// The payload of a line that begins with `prefix`: what follows the
/// prefix, up to the next separator or the end of the line.
pub open spec fn payload_after(line: Seq<u8>, prefix: Seq<u8>) -> Seq<u8> {
    let end = match find_from(line, separator(), prefix.len() as int) {
        Some(i) => i,
        None => line.len() as int,
    };
    line.subrange(prefix.len() as int, end)
}

/// What one line of the event socket means.  A focus change carries the
/// id of the workspace; where its payload is no integer the list is
/// fetched again.  Creating and destroying a workspace change the list.
/// Every other line means nothing.
pub open spec fn event_of_line(line: Seq<u8>) -> Option<IpcEventView> {
    if "workspace>>".spec_bytes().is_prefix_of(line) {
        match parse_i32(payload_after(line, "workspace>>".spec_bytes())) {
            Some(id) => Some(IpcEventView::WorkspaceChanged(id)),
            None => Some(IpcEventView::WorkspacesListChanged),
        }
    } else if "createworkspace>>".spec_bytes().is_prefix_of(line)
        || "destroyworkspace>>".spec_bytes().is_prefix_of(line) {
        Some(IpcEventView::WorkspacesListChanged)
    } else {
        None
    }
}

/// Reads one line of the event socket, without its line ending.
pub fn parse_event_line(line: &[u8]) -> (event: Option<IpcEvent>)
    ensures
        event_view(event) == event_of_line(line@),
{
    let focus = "workspace>>".as_bytes();
    if starts_with(line, focus) {
        let end = match find(line, ">>".as_bytes(), focus.len()) {
            Some(i) => i,
            None => line.len(),
        };
        proof {
            lemma_find_bounds(line@, separator(), focus@.len() as int);
        }
        let payload = copy_range(line, focus.len(), end);
        match read_i32(payload.as_slice()) {
            Some(id) => Some(IpcEvent::WorkspaceChanged(id)),
            None => Some(IpcEvent::WorkspacesListChanged),
        }
    } else if starts_with(line, "createworkspace>>".as_bytes()) || starts_with(
        line,
        "destroyworkspace>>".as_bytes(),
    ) {
        Some(IpcEvent::WorkspacesListChanged)
    } else {
        None
    }
}

/// Why the event socket could not be located at startup.
#[derive(Debug)]
pub enum SocketError {
    /// The runtime directory is not given by the environment.
    RuntimeDirNotSet,
    /// The window manager's instance signature is not given by the
    /// environment.
    SignatureNotSet,
    /// Nothing exists at the path of the socket.
    NotFound(String),
}

/// The path of the event socket for a runtime directory and an instance
/// signature.
pub open spec fn socket_path(runtime_dir: Seq<char>, signature: Seq<char>) -> Seq<char> {
    runtime_dir + "/hypr/"@ + signature + "/.socket2.sock"@
}

impl SocketError {
    /// The text of the error event that reports this failure.
    pub open spec fn message_text(&self) -> Seq<char> {
        match self {
            SocketError::RuntimeDirNotSet => "XDG_RUNTIME_DIR not set"@,
            SocketError::SignatureNotSet => "HYPRLAND_INSTANCE_SIGNATURE not set"@,
            SocketError::NotFound(path) => "Socket not found at: "@ + path@,
        }
    }

    /// The text of the error event that reports this failure.
    pub fn message(&self) -> (m: String)
        ensures
            m@ == self.message_text(),
    {
        match self {
            SocketError::RuntimeDirNotSet => String::from_str("XDG_RUNTIME_DIR not set"),
            SocketError::SignatureNotSet => String::from_str(
                "HYPRLAND_INSTANCE_SIGNATURE not set",
            ),
            SocketError::NotFound(path) => {
                let mut m = String::from_str("Socket not found at: ");
                m.append(path.as_str());
                m
            },
        }
    }
}

impl WorkspacesModule {
    /// The path of the event socket, from the two values that the
    /// environment supplies; an error names the first one that is
    /// missing.
    pub fn get_event_socket_path(runtime_dir: Option<&str>, signature: Option<&str>) -> (r: Result<
        String,
        SocketError,
    >)
        ensures
            match (runtime_dir, signature) {
                (None, _) => r matches Err(SocketError::RuntimeDirNotSet),
                (Some(_), None) => r matches Err(SocketError::SignatureNotSet),
                (Some(d), Some(s)) => r matches Ok(path) && path@ == socket_path(d@, s@),
            },
    {
        match runtime_dir {
            None => Err(SocketError::RuntimeDirNotSet),
            Some(d) => match signature {
                None => Err(SocketError::SignatureNotSet),
                Some(s) => {
                    let mut path = String::from_str(d);
                    path.append("/hypr/");
                    path.append(s);
                    path.append("/.socket2.sock");
                    Ok(path)
                },
            },
        }
    }
}

/// The located socket, once it is known whether anything exists at its
/// path: the path itself, or the error that names it.
pub fn confirm_socket(path: String, exists: bool) -> (r: Result<String, SocketError>)
    ensures
        match r {
            Ok(p) => exists && p@ == path@,
            Err(e) => !exists && (e matches SocketError::NotFound(p) && p@ == path@),
        },
{
    if exists {
        Ok(path)
    } else {
        Err(SocketError::NotFound(path))
    }
}

/// Time to wait before the next connect attempt, in milliseconds.
pub const BACKOFF_MS: u64 = 2000;

/// Where the listener stands.
#[derive(Clone, Copy, Debug, PartialEq, Eq, Structural)]
pub enum ListenerState {
    /// Not started: the socket has not been located yet.
    Idle,
    /// A connect attempt is under way.
    Connecting,
    /// Connected: lines are read as they arrive.
    Streaming,
    /// Not connected: the backoff runs.
    Disconnected,
    /// The socket could not be located at startup: the listener has
    /// ended.
    Stopped,
}

/// What the listener asks its driver to do next.
#[derive(Clone, Copy, Debug, PartialEq, Eq, Structural)]
pub enum ListenerAction {
    /// Locate the socket.
    Locate,
    /// Try to connect.
    Connect,
    /// Read the next line.
    ReadLine,
    /// Wait for this many milliseconds.
    Wait(u64),
    /// End.
    Stop,
}

/// What the driver reports to the listener.
pub enum ListenerInput {
    /// The socket was located (`None`), or could not be, with the text of
    /// the error.
    Located(Option<Seq<char>>),
    /// The connect attempt succeeded (`None`), or failed with this text.
    ConnectEnded(Option<Seq<char>>),
    /// A line arrived.
    Line(Seq<u8>),
    /// The stream ended or failed.
    StreamEnded,
    /// The backoff is over.
    BackoffElapsed,
}

/// The answer of the listener to one report: the event to forward, if
/// any, and what to do next.
#[derive(Debug)]
pub struct ListenerStep {
    pub emit: Option<IpcEvent>,
    pub action: ListenerAction,
}

/// The state that follows `state` on `input`.  A report that does not fit
/// the state changes nothing.
pub open spec fn next_state(state: ListenerState, input: ListenerInput) -> ListenerState {
    match (state, input) {
        (ListenerState::Idle, ListenerInput::Located(None)) => ListenerState::Connecting,
        (ListenerState::Idle, ListenerInput::Located(Some(_))) => ListenerState::Stopped,
        (ListenerState::Connecting, ListenerInput::ConnectEnded(None)) => ListenerState::Streaming,
        (ListenerState::Connecting, ListenerInput::ConnectEnded(Some(_))) =>
            ListenerState::Disconnected,
        (ListenerState::Streaming, ListenerInput::StreamEnded) => ListenerState::Disconnected,
        (ListenerState::Disconnected, ListenerInput::BackoffElapsed) => ListenerState::Connecting,
        _ => state,
    }
}

/// The event that the listener forwards when `input` arrives in `state`.
pub open spec fn emitted(state: ListenerState, input: ListenerInput) -> Option<IpcEventView> {
    match (state, input) {
        (ListenerState::Idle, ListenerInput::Located(Some(text))) => Some(
            IpcEventView::Error(text),
        ),
        (ListenerState::Connecting, ListenerInput::ConnectEnded(Some(text))) => Some(
            IpcEventView::Error(text),
        ),
        (ListenerState::Streaming, ListenerInput::Line(line)) => event_of_line(line),
        _ => None,
    }
}

/// What the driver is to do while the listener is in `state`.
pub open spec fn action_in(state: ListenerState) -> ListenerAction {
    match state {
        ListenerState::Idle => ListenerAction::Locate,
        ListenerState::Connecting => ListenerAction::Connect,
        ListenerState::Streaming => ListenerAction::ReadLine,
        ListenerState::Disconnected => ListenerAction::Wait(BACKOFF_MS),
        ListenerState::Stopped => ListenerAction::Stop,
    }
}

/// The state reached from `state` after the reports `inputs`, in order.
pub open spec fn run(state: ListenerState, inputs: Seq<ListenerInput>) -> ListenerState
    decreases inputs.len(),
{
    if inputs.len() == 0 {
        state
    } else {
        run(next_state(state, inputs[0]), inputs.drop_first())
    }
}

/// The reports of `lines` arriving one after another.
pub open spec fn line_inputs(lines: Seq<Seq<u8>>) -> Seq<ListenerInput> {
    Seq::new(lines.len(), |i: int| ListenerInput::Line(lines[i]))
}

/// Once the socket was located the listener never ends: whatever is
/// reported, it stays in the cycle of connecting, streaming and waiting.
pub proof fn lemma_listener_keeps_running(state: ListenerState, input: ListenerInput)
    requires
        state != ListenerState::Idle,
        state != ListenerState::Stopped,
    ensures
        next_state(state, input) != ListenerState::Stopped,
        next_state(state, input) != ListenerState::Idle,
        action_in(next_state(state, input)) != ListenerAction::Stop,
{
}

/// A listener that could not locate its socket forwards that one error
/// and ends; after that it forwards nothing and stays ended, whatever is
/// reported.
pub proof fn lemma_failed_start_reports_once(text: Seq<char>, later: ListenerInput)
    ensures
        emitted(ListenerState::Idle, ListenerInput::Located(Some(text))) == Some(
            IpcEventView::Error(text),
        ),
        next_state(ListenerState::Idle, ListenerInput::Located(Some(text)))
            == ListenerState::Stopped,
        action_in(ListenerState::Stopped) == ListenerAction::Stop,
        emitted(ListenerState::Stopped, later) is None,
        next_state(ListenerState::Stopped, later) == ListenerState::Stopped,
{
}

/// A stream that ends after any number of lines leaves the listener
/// waiting for the backoff of two seconds; nothing but the end of the
/// backoff moves it on, and then it connects again.
pub proof fn lemma_reconnects_after_stream_end(lines: Seq<Seq<u8>>)
    ensures
        run(ListenerState::Streaming, line_inputs(lines)) == ListenerState::Streaming,
        run(ListenerState::Streaming, line_inputs(lines).push(ListenerInput::StreamEnded))
            == ListenerState::Disconnected,
        action_in(ListenerState::Disconnected) == ListenerAction::Wait(2000),
        forall|input: ListenerInput|
            input != ListenerInput::BackoffElapsed ==> #[trigger] next_state(
                ListenerState::Disconnected,
                input,
            ) == ListenerState::Disconnected,
        next_state(ListenerState::Disconnected, ListenerInput::BackoffElapsed)
            == ListenerState::Connecting,
        action_in(ListenerState::Connecting) == ListenerAction::Connect,
    decreases lines.len(),
{
    let inputs = line_inputs(lines);
    let ended = inputs.push(ListenerInput::StreamEnded);
    if lines.len() == 0 {
        assert(ended.drop_first() =~= Seq::<ListenerInput>::empty());
        assert(run(ListenerState::Disconnected, ended.drop_first())
            == ListenerState::Disconnected);
    } else {
        lemma_reconnects_after_stream_end(lines.drop_first());
        assert(inputs.drop_first() =~= line_inputs(lines.drop_first()));
        assert(ended.drop_first() =~= line_inputs(lines.drop_first()).push(
            ListenerInput::StreamEnded,
        ));
    }
}

/// The follower of the event socket.
pub struct Listener {
    state: ListenerState,
}

impl View for Listener {
    type V = ListenerState;

    closed spec fn view(&self) -> ListenerState {
        self.state
    }
}

/// The text of a failure that was reported with `error`.
pub open spec fn failure_text(error: Option<String>) -> Option<Seq<char>> {
    match error {
        Some(text) => Some(text@),
        None => None,
    }
}

/// What locating the socket reports to the listener.
pub open spec fn located_input(socket: Result<String, SocketError>) -> ListenerInput {
    match socket {
        Ok(_) => ListenerInput::Located(None),
        Err(e) => ListenerInput::Located(Some(e.message_text())),
    }
}

impl Listener {
    /// A listener that has not started.
    pub fn new() -> (l: Self)
        ensures
            l@ == ListenerState::Idle,
    {
        Listener { state: ListenerState::Idle }
    }

    /// Where the listener stands.
    pub fn state(&self) -> (s: ListenerState)
        ensures
            s == self@,
    {
        self.state
    }

    /// What the driver is to do in the current state.
    pub fn action(&self) -> (a: ListenerAction)
        ensures
            a == action_in(self@),
    {
        match self.state {
            ListenerState::Idle => ListenerAction::Locate,
            ListenerState::Connecting => ListenerAction::Connect,
            ListenerState::Streaming => ListenerAction::ReadLine,
            ListenerState::Disconnected => ListenerAction::Wait(BACKOFF_MS),
            ListenerState::Stopped => ListenerAction::Stop,
        }
    }

    /// Reports the outcome of locating the socket.  A failure is forwarded
    /// as one error event, and the listener ends.
    pub fn on_located(&mut self, socket: &Result<String, SocketError>) -> (step: ListenerStep)
        ensures
            final(self)@ == next_state(old(self)@, located_input(*socket)),
            step.action == action_in(final(self)@),
            event_view(step.emit) == emitted(old(self)@, located_input(*socket)),
    {
        let mut emit: Option<IpcEvent> = None;
        match self.state {
            ListenerState::Idle => match socket {
                Ok(_) => {
                    self.state = ListenerState::Connecting;
                },
                Err(e) => {
                    emit = Some(IpcEvent::Error(e.message()));
                    self.state = ListenerState::Stopped;
                },
            },
            _ => {},
        }
        ListenerStep { emit, action: self.action() }
    }

    /// Reports the outcome of a connect attempt: `None` for success, or
    /// the text of the failure, which is forwarded as one error event
    /// before the backoff.
    pub fn on_connect(&mut self, failure: Option<String>) -> (step: ListenerStep)
        ensures
            final(self)@ == next_state(
                old(self)@,
                ListenerInput::ConnectEnded(failure_text(failure)),
            ),
            step.action == action_in(final(self)@),
            event_view(step.emit) == emitted(
                old(self)@,
                ListenerInput::ConnectEnded(failure_text(failure)),
            ),
    {
        let mut emit: Option<IpcEvent> = None;
        match self.state {
            ListenerState::Connecting => match failure {
                None => {
                    self.state = ListenerState::Streaming;
                },
                Some(text) => {
                    emit = Some(IpcEvent::Error(text));
                    self.state = ListenerState::Disconnected;
                },
            },
            _ => {},
        }
        ListenerStep { emit, action: self.action() }
    }

    /// Reports one line read from the socket.
    pub fn on_line(&mut self, line: &[u8]) -> (step: ListenerStep)
        ensures
            final(self)@ == next_state(old(self)@, ListenerInput::Line(line@)),
            final(self)@ == old(self)@,
            step.action == action_in(final(self)@),
            event_view(step.emit) == emitted(old(self)@, ListenerInput::Line(line@)),
    {
        let emit = match self.state {
            ListenerState::Streaming => parse_event_line(line),
            _ => None,
        };
        ListenerStep { emit, action: self.action() }
    }

    /// Reports that the stream ended or failed.
    pub fn on_stream_end(&mut self) -> (step: ListenerStep)
        ensures
            final(self)@ == next_state(old(self)@, ListenerInput::StreamEnded),
            step.action == action_in(final(self)@),
            step.emit is None,
    {
        match self.state {
            ListenerState::Streaming => {
                self.state = ListenerState::Disconnected;
            },
            _ => {},
        }
        ListenerStep { emit: None, action: self.action() }
    }

    /// Reports that the backoff is over.
    pub fn on_backoff_elapsed(&mut self) -> (step: ListenerStep)
        ensures
            final(self)@ == next_state(old(self)@, ListenerInput::BackoffElapsed),
            step.action == action_in(final(self)@),
            step.emit is None,
    {
        match self.state {
            ListenerState::Disconnected => {
                self.state = ListenerState::Connecting;
            },
            _ => {},
        }
        ListenerStep { emit: None, action: self.action() }
    }
}

} // verus!
