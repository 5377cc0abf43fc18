use crate::protocol::{encode_action, encoded, Action, ActionView};
use vstd::prelude::*;

verus! {

/// Seconds to wait after a connection fault before connecting again.
pub const RECONNECT_DELAY_SECS: u64 = 5;

/// Idle time and probe interval, in seconds, of TCP keep-alive on the connection.
pub const KEEPALIVE_SECS: u64 = 5;

/// The longest record, in bytes, accepted from the server; a longer one is a
/// framing error.
pub const MAX_LINE_LENGTH: usize = 65536;

/// Where the single connection to the server stands.
#[derive(Clone, Copy, Debug, PartialEq, Eq, Structural)]
pub enum LinkState {
    Disconnected,
    Handshaking,
    Connected,
}

/// What happened since the last command.
#[derive(Debug, PartialEq, Eq)]
pub enum TransportEvent {
    /// The transport starts, or the back-off delay has elapsed.
    Resume,
    /// The TCP connection is open and the mutually authenticated handshake succeeded.
    Established,
    /// The attempt or the live connection failed: handshake, framing or I/O error,
    /// or the server closed the stream.
    Lost,
    /// The next action taken from the outbound queue.
    Dequeued(Action),
    /// Every sender of the outbound queue is gone.
    QueueClosed,
    /// The record last handed out with `Send` was written.
    Written,
    /// A record arrived from the server; it carries no command.
    Received,
}

/// What the driver of the connection does next.
#[derive(Debug, PartialEq, Eq)]
pub enum TransportCommand {
    /// Open the TCP connection with keep-alive and run the handshake.
    Connect,
    /// Write this record as one line.
    Send(String),
    /// Wait for the next queued action or the next record from the server.
    Wait,
    /// Sleep this many seconds, then resume.
    Backoff(u64),
    /// Stop with an error: the outbound queue can never yield again, or the
    /// driver broke the protocol of this machine.
    Fail,
}

/// The value of a transport event.
pub enum EventView {
    Resume,
    Established,
    Lost,
    Dequeued(ActionView),
    QueueClosed,
    Written,
    Received,
}

/// The value of a transport command.
pub enum CommandView {
    Connect,
    Send(Seq<char>),
    Wait,
    Backoff(u64),
    Fail,
}

impl View for TransportEvent {
    type V = EventView;

    open spec fn view(&self) -> EventView {
        match self {
            TransportEvent::Resume => EventView::Resume,
            TransportEvent::Established => EventView::Established,
            TransportEvent::Lost => EventView::Lost,
            TransportEvent::Dequeued(a) => EventView::Dequeued(a@),
            TransportEvent::QueueClosed => EventView::QueueClosed,
            TransportEvent::Written => EventView::Written,
            TransportEvent::Received => EventView::Received,
        }
    }
}

impl View for TransportCommand {
    type V = CommandView;

    open spec fn view(&self) -> CommandView {
        match self {
            TransportCommand::Connect => CommandView::Connect,
            TransportCommand::Send(l) => CommandView::Send(l@),
            TransportCommand::Wait => CommandView::Wait,
            TransportCommand::Backoff(s) => CommandView::Backoff(*s),
            TransportCommand::Fail => CommandView::Fail,
        }
    }
}

/// The state of the transport as values.
pub struct TransportView {
    pub state: LinkState,
    /// The action taken from the queue whose record has not been written yet.
    pub pending: Option<ActionView>,
}

/// The reconnecting transport: its link state, and the action taken from the
/// queue whose record has not been written yet. That action survives a fault and
/// is the first record sent on the next connection.
pub struct Transport {
    pub state: LinkState,
    pub pending: Option<Action>,
}

impl View for Transport {
    type V = TransportView;

    open spec fn view(&self) -> TransportView {
        TransportView {
            state: self.state,
            pending: match self.pending {
                Some(a) => Some(a@),
                None => None,
            },
        }
    }
}

/// What a connected transport does when free to act: send the pending record,
/// or wait for work.
pub open spec fn serve(pending: Option<ActionView>) -> CommandView {
    match pending {
        Some(a) => match encoded(a) {
            Some(l) => CommandView::Send(l),
            None => CommandView::Wait,
        },
        None => CommandView::Wait,
    }
}

/// What the transport does in a state when an event brings nothing new.
pub open spec fn resume_command(s: TransportView) -> CommandView {
    match s.state {
        LinkState::Disconnected => CommandView::Backoff(RECONNECT_DELAY_SECS),
        LinkState::Handshaking => CommandView::Connect,
        LinkState::Connected => serve(s.pending),
    }
}

/// The transition: `Disconnected -> Handshaking -> Connected`, back to
/// `Disconnected` on any fault with a fixed back-off, and a fatal stop when the
/// queue closes.
pub open spec fn next(s: TransportView, e: EventView) -> (TransportView, CommandView) {
    let faulted = TransportView { state: LinkState::Disconnected, pending: s.pending };
    match (s.state, e) {
        (_, EventView::QueueClosed) => (s, CommandView::Fail),
        (LinkState::Disconnected, EventView::Resume) => (
            TransportView { state: LinkState::Handshaking, pending: s.pending },
            CommandView::Connect,
        ),
        (LinkState::Handshaking, EventView::Established) => (
            TransportView { state: LinkState::Connected, pending: s.pending },
            serve(s.pending),
        ),
        (LinkState::Handshaking, EventView::Lost) => (
            faulted,
            CommandView::Backoff(RECONNECT_DELAY_SECS),
        ),
        (LinkState::Connected, EventView::Lost) => (
            faulted,
            CommandView::Backoff(RECONNECT_DELAY_SECS),
        ),
        (LinkState::Connected, EventView::Dequeued(a)) => if s.pending is Some {
            (s, CommandView::Fail)
        } else {
            match encoded(a) {
                Some(l) => (
                    TransportView { state: LinkState::Connected, pending: Some(a) },
                    CommandView::Send(l),
                ),
                None => (
                    TransportView { state: LinkState::Disconnected, pending: None },
                    CommandView::Backoff(RECONNECT_DELAY_SECS),
                ),
            }
        },
        (_, EventView::Dequeued(a)) => (s, CommandView::Fail),
        (LinkState::Connected, EventView::Written) => (
            TransportView { state: LinkState::Connected, pending: None },
            CommandView::Wait,
        ),
        _ => (s, resume_command(s)),
    }
}

impl Transport {
    /// A transport that has not connected yet; feed it `Resume` to start.
    pub fn new() -> (r: Transport)
        ensures
            r@ == (TransportView { state: LinkState::Disconnected, pending: None }),
    {
        Transport { state: LinkState::Disconnected, pending: None }
    }

    fn serve_pending(&self) -> (r: TransportCommand)
        requires
            self.state == LinkState::Connected,
        ensures
            r@ == serve(self@.pending),
    {
        match &self.pending {
            Some(a) => match encode_action(a) {
                Ok(l) => TransportCommand::Send(l),
                Err(_) => TransportCommand::Wait,
            },
            None => TransportCommand::Wait,
        }
    }

    fn resume(&self) -> (r: TransportCommand)
        ensures
            r@ == resume_command(self@),
    {
        match self.state {
            LinkState::Disconnected => TransportCommand::Backoff(RECONNECT_DELAY_SECS),
            LinkState::Handshaking => TransportCommand::Connect,
            LinkState::Connected => self.serve_pending(),
        }
    }

    /// Takes one event and says what to do next.
    pub fn step(&mut self, event: TransportEvent) -> (r: TransportCommand)
        ensures
            (final(self)@, r@) == next(old(self)@, event@),
    {
        match event {
            TransportEvent::QueueClosed => TransportCommand::Fail,
            TransportEvent::Resume => match self.state {
                LinkState::Disconnected => {
                    self.state = LinkState::Handshaking;
                    TransportCommand::Connect
                },
                _ => self.resume(),
            },
            TransportEvent::Established => match self.state {
                LinkState::Handshaking => {
                    self.state = LinkState::Connected;
                    self.serve_pending()
                },
                _ => self.resume(),
            },
            TransportEvent::Lost => match self.state {
                LinkState::Disconnected => self.resume(),
                _ => {
                    self.state = LinkState::Disconnected;
                    TransportCommand::Backoff(RECONNECT_DELAY_SECS)
                },
            },
            TransportEvent::Dequeued(a) => match self.state {
                LinkState::Connected => {
                    if self.pending.is_some() {
                        TransportCommand::Fail
                    } else {
                        match encode_action(&a) {
                            Ok(l) => {
                                self.pending = Some(a);
                                TransportCommand::Send(l)
                            },
                            Err(_) => {
                                self.state = LinkState::Disconnected;
                                TransportCommand::Backoff(RECONNECT_DELAY_SECS)
                            },
                        }
                    }
                },
                _ => TransportCommand::Fail,
            },
            TransportEvent::Written => match self.state {
                LinkState::Connected => {
                    self.pending = None;
                    TransportCommand::Wait
                },
                _ => self.resume(),
            },
            TransportEvent::Received => self.resume(),
        }
    }
}

/// Reconnection: when a live connection fails with an action still unwritten,
/// the transport does not stop; it backs off for the fixed delay, connects again,
/// and sends that action first on the new connection.
pub proof fn lemma_reconnect_resends_pending(a: ActionView)
    requires
        encoded(a) is Some,
    ensures
        ({
            let live = TransportView { state: LinkState::Connected, pending: Some(a) };
            let (down, c1) = next(live, EventView::Lost);
            let (again, c2) = next(down, EventView::Resume);
            let (up, c3) = next(again, EventView::Established);
            &&& c1 == CommandView::Backoff(RECONNECT_DELAY_SECS)
            &&& down == TransportView { state: LinkState::Disconnected, pending: Some(a) }
            &&& c2 == CommandView::Connect
            &&& again == TransportView { state: LinkState::Handshaking, pending: Some(a) }
            &&& c3 == CommandView::Send(encoded(a)->0)
            &&& up == TransportView { state: LinkState::Connected, pending: Some(a) }
        }),
{
}

/// No fault of the connection stops the transport: from any state a lost
/// connection leads to the back-off, never to a fatal stop, and keeps the
/// unwritten action.
pub proof fn lemma_fault_is_not_fatal(s: TransportView)
    ensures
        next(s, EventView::Lost).1 == CommandView::Backoff(RECONNECT_DELAY_SECS),
        next(s, EventView::Lost).0.pending == s.pending,
{
}

/// Order is kept: of two actions dequeued one after the other on a live
/// connection, the first is sent, and the second is taken and sent only once the
/// first was written.
pub proof fn lemma_sends_in_dequeue_order(a: ActionView, b: ActionView)
    requires
        encoded(a) is Some,
        encoded(b) is Some,
    ensures
        ({
            let idle = TransportView { state: LinkState::Connected, pending: None };
            let (busy, c1) = next(idle, EventView::Dequeued(a));
            let (free, c2) = next(busy, EventView::Written);
            let (busy2, c3) = next(free, EventView::Dequeued(b));
            &&& c1 == CommandView::Send(encoded(a)->0)
            &&& c2 == CommandView::Wait
            &&& c3 == CommandView::Send(encoded(b)->0)
            &&& busy2.pending == Some(b)
        }),
{
}

/// An action is never taken over one whose record is not written yet.
pub proof fn lemma_one_record_in_flight(s: TransportView, b: ActionView)
    requires
        s.pending is Some,
    ensures
        next(s, EventView::Dequeued(b)).1 == CommandView::Fail,
        next(s, EventView::Dequeued(b)).0 == s,
{
}

} // verus!
