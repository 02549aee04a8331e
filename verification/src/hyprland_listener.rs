//! The listener that follows the window manager's event socket, as a state
//! machine: the caller connects, queries and reads, and tells the machine
//! what came of it; the machine says what to do next.

use vstd::prelude::*;
use vstd::string::is_ascii_spec_bytes;

verus! {

/// Milliseconds between two attempts to connect or to query.
pub const RECONNECTION_INTERVAL: u64 = 1000;

/// Bytes read from the event socket at a time.
pub const EVENT_BUFFER_SIZE: usize = 4096;

/// Where the listener stands.
#[derive(Clone, Copy, Debug, PartialEq, Eq, Structural)]
pub enum ListenerState {
    /// Not connected, and not trying to connect: before the start, and
    /// after a failure until the listener starts again.
    Disconnected,
    /// Trying to reach the event socket.
    Connecting,
    /// Connected; the active workspace is not known yet.
    Acquiring,
    /// The active workspace was published; events are being read.
    Streaming,
}

/// What the outside world reported to the listener.
#[derive(Debug)]
pub enum ListenerEvent {
    /// The listener was started, or started again.
    Started,
    /// The event socket accepted the connection.
    Connected,
    /// The event socket could not be reached.
    ConnectFailed,
    /// The control socket named the active workspace.
    WorkspaceKnown(i32),
    /// The control socket gave no usable answer.
    QueryFailed,
    /// Bytes arrived on the event socket, possibly none.
    Chunk(Vec<u8>),
    /// Reading the event socket failed.
    ReadFailed,
}

/// What the listener asks of the outside world next.
#[derive(Clone, Copy, Debug, PartialEq, Eq, Structural)]
pub enum ListenerAction {
    /// Connect to the event socket.
    Connect,
    /// Wait one reconnection interval, then connect to the event socket.
    WaitThenConnect,
    /// Ask the control socket for the active workspace.
    Query,
    /// Wait one reconnection interval, then ask for the active workspace.
    WaitThenQuery,
    /// Hand this workspace to the workspace context, then read the event
    /// socket.
    Publish(i32),
    /// Read the event socket.
    Read,
    /// Drop the connection, wait one reconnection interval, then start
    /// again: report `Started`.
    WaitThenStart,
}

/// `data` holds the ASCII text `word` from position `at` on.
pub open spec fn has_word_at(data: Seq<u8>, at: int, word: Seq<char>) -> bool {
    &&& 0 <= at
    &&& at + word.len() <= data.len()
    &&& forall|k: int| 0 <= k < word.len() ==> #[trigger] data[at + k] == word[k] as u8
}

/// A line of `data` begins at `at`: lines are separated by line feeds.
pub open spec fn line_starts_at(data: Seq<u8>, at: int) -> bool {
    0 <= at <= data.len() && (at == 0 || data[at - 1] == 0x0a)
}

/// Some line of `data` begins with `workspace` or with `focusedmon`: the
/// window manager reports that the active workspace may have changed.
pub open spec fn reports_workspace_change(data: Seq<u8>) -> bool {
    exists|at: int|
        #![trigger line_starts_at(data, at)]
        line_starts_at(data, at) && (has_word_at(data, at, "workspace"@) || has_word_at(
            data,
            at,
            "focusedmon"@,
        ))
}

/// The next state and the action for `event` in `state`.
///
/// While connecting, a failure is answered by another attempt after the
/// interval. While acquiring, a workspace above zero is published and
/// streaming begins; any other answer is asked for again, a failed query
/// after the interval. While streaming, a chunk that reports a change of
/// workspace is answered by a query, whose answer is published as it is;
/// a failed read or a failed query leaves the listener disconnected, and it
/// starts again after the interval. An event that the state does not wait
/// for is answered in the same way. The listener never ends: whenever it is
/// disconnected, it has asked to be started.
pub open spec fn listener_step(state: ListenerState, event: ListenerEvent) -> (
    ListenerState,
    ListenerAction,
) {
    match (state, event) {
        (ListenerState::Disconnected, ListenerEvent::Started) => (
            ListenerState::Connecting,
            ListenerAction::Connect,
        ),
        (ListenerState::Connecting, ListenerEvent::Connected) => (
            ListenerState::Acquiring,
            ListenerAction::Query,
        ),
        (ListenerState::Connecting, ListenerEvent::ConnectFailed) => (
            ListenerState::Connecting,
            ListenerAction::WaitThenConnect,
        ),
        (ListenerState::Acquiring, ListenerEvent::WorkspaceKnown(id)) => if id > 0 {
            (ListenerState::Streaming, ListenerAction::Publish(id))
        } else {
            (ListenerState::Acquiring, ListenerAction::Query)
        },
        (ListenerState::Acquiring, ListenerEvent::QueryFailed) => (
            ListenerState::Acquiring,
            ListenerAction::WaitThenQuery,
        ),
        (ListenerState::Streaming, ListenerEvent::Chunk(data)) => if reports_workspace_change(
            data@,
        ) {
            (ListenerState::Streaming, ListenerAction::Query)
        } else {
            (ListenerState::Streaming, ListenerAction::Read)
        },
        (ListenerState::Streaming, ListenerEvent::WorkspaceKnown(id)) => (
            ListenerState::Streaming,
            ListenerAction::Publish(id),
        ),
        _ => (ListenerState::Disconnected, ListenerAction::WaitThenStart),
    }
}

/// Whether `data` holds `word` at `at`.
fn word_at(data: &[u8], at: usize, word: &str) -> (r: bool)
    requires
        at <= data.len(),
        word.is_ascii(),
    ensures
        r == has_word_at(data@, at as int, word@),
{
    broadcast use is_ascii_spec_bytes;

    let w = word.as_bytes();
    assert(w@.len() == word@.len());
    if w.len() > data.len() - at {
        return false;
    }
    let mut k: usize = 0;
    while k < w.len()
        invariant
            k <= w.len(),
            at + w.len() <= data.len(),
            w@.len() == word@.len(),
            forall|j: int| 0 <= j < w@.len() ==> w@[j] == word@[j] as u8,
            forall|j: int| 0 <= j < k ==> #[trigger] data@[at + j] == word@[j] as u8,
        decreases w.len() - k,
    {
        if data[at + k] != w[k] {
            assert(data@[at + k] != word@[k as int] as u8);
            return false;
        }
        k = k + 1;
    }
    true
}

/// Whether some line of `data` begins with `workspace` or `focusedmon`.
pub fn chunk_reports_workspace_change(data: &[u8]) -> (r: bool)
    ensures
        r == reports_workspace_change(data@),
{
    proof {
        reveal_strlit("workspace");
        reveal_strlit("focusedmon");
    }
    let mut at: usize = 0;
    while at < data.len()
        invariant
            at <= data.len(),
            "workspace".is_ascii(),
            "focusedmon".is_ascii(),
            forall|p: int|
                0 <= p < at && #[trigger] line_starts_at(data@, p) ==> !has_word_at(
                    data@,
                    p,
                    "workspace"@,
                ) && !has_word_at(data@, p, "focusedmon"@),
        decreases data.len() - at,
    {
        if at == 0 || data[at - 1] == 0x0a {
            if word_at(data, at, "workspace") || word_at(data, at, "focusedmon") {
                assert(line_starts_at(data@, at as int));
                return true;
            }
        }
        at = at + 1;
    }
    assert(!has_word_at(data@, data@.len() as int, "workspace"@));
    assert(!has_word_at(data@, data@.len() as int, "focusedmon"@));
    false
}

impl ListenerState {
    /// The state of a listener that was not started yet.
    pub fn new() -> (state: ListenerState)
        ensures
            state == ListenerState::Disconnected,
    {
        ListenerState::Disconnected
    }

    /// Takes `event` in, moves to the next state and returns the action to
    /// perform.
    pub fn step(&mut self, event: &ListenerEvent) -> (action: ListenerAction)
        ensures
            (*final(self), action) == listener_step(*old(self), *event),
    {
        let (next, action) = match (*self, event) {
            (ListenerState::Disconnected, ListenerEvent::Started) => (
                ListenerState::Connecting,
                ListenerAction::Connect,
            ),
            (ListenerState::Connecting, ListenerEvent::Connected) => (
                ListenerState::Acquiring,
                ListenerAction::Query,
            ),
            (ListenerState::Connecting, ListenerEvent::ConnectFailed) => (
                ListenerState::Connecting,
                ListenerAction::WaitThenConnect,
            ),
            (ListenerState::Acquiring, ListenerEvent::WorkspaceKnown(id)) => {
                if *id > 0 {
                    (ListenerState::Streaming, ListenerAction::Publish(*id))
                } else {
                    (ListenerState::Acquiring, ListenerAction::Query)
                }
            },
            (ListenerState::Acquiring, ListenerEvent::QueryFailed) => (
                ListenerState::Acquiring,
                ListenerAction::WaitThenQuery,
            ),
            (ListenerState::Streaming, ListenerEvent::Chunk(data)) => {
                if chunk_reports_workspace_change(data.as_slice()) {
                    (ListenerState::Streaming, ListenerAction::Query)
                } else {
                    (ListenerState::Streaming, ListenerAction::Read)
                }
            },
            (ListenerState::Streaming, ListenerEvent::WorkspaceKnown(id)) => (
                ListenerState::Streaming,
                ListenerAction::Publish(*id),
            ),
            _ => (ListenerState::Disconnected, ListenerAction::WaitThenStart),
        };
        *self = next;
        action
    }
}

/// The listener never ends: a step leaves it disconnected only together
/// with the request to start it again, and a listener that is started
/// connects.
pub proof fn lemma_listener_never_ends(state: ListenerState, event: ListenerEvent)
    ensures
        listener_step(state, event).0 == ListenerState::Disconnected <==> listener_step(
            state,
            event,
        ).1 == ListenerAction::WaitThenStart,
        listener_step(ListenerState::Disconnected, ListenerEvent::Started) == (
            ListenerState::Connecting,
            ListenerAction::Connect,
        ),
{
}

/// A failure while streaming leaves the listener disconnected, to start
/// again after the interval.
pub proof fn lemma_listener_reconnects(event: ListenerEvent)
    requires
        event is ReadFailed || event is QueryFailed,
    ensures
        listener_step(ListenerState::Streaming, event) == (
            ListenerState::Disconnected,
            ListenerAction::WaitThenStart,
        ),
{
}

/// Streaming is entered only from acquiring, by publishing a workspace above
/// zero; and a workspace is published only by a step that ends in streaming.
pub proof fn lemma_listener_streams_after_publishing(state: ListenerState, event: ListenerEvent)
    ensures
        state != ListenerState::Streaming && listener_step(state, event).0
            == ListenerState::Streaming ==> state == ListenerState::Acquiring && exists|id: i32|
            id > 0 && listener_step(state, event).1 == ListenerAction::Publish(id),
        forall|id: i32|
            listener_step(state, event).1 == ListenerAction::Publish(id) ==> listener_step(
                state,
                event,
            ).0 == ListenerState::Streaming && event == ListenerEvent::WorkspaceKnown(id),
{
    if state != ListenerState::Streaming && listener_step(state, event).0
        == ListenerState::Streaming {
        let id = event->WorkspaceKnown_0;
        assert(id > 0 && listener_step(state, event).1 == ListenerAction::Publish(id));
    }
}

} // verus!
