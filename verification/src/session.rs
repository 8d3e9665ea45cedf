//! Connection Session: the protocol state machine for one connection's
//! lifetime.
//!
//! The session owns the connection status, the Subscription Registry and the
//! Request Correlator.  It is driven by inputs — an inbound text frame, the
//! end or failure of the transport, or a caller command — and answers each
//! with a list of effects: frames to send, events to emit toward the
//! observer, and a request to close the socket.  The I/O loop around it
//! performs the effects; every decision is made here.
//!
//! Each handler's contract equates the new state and the effects with a
//! specification-level transition function, so the whole machine is pinned
//! input by input.

use vstd::prelude::*;

use crate::codec::{
    decode_frame, encode_request, CentrifugoMethod, Frame, FrameView, MethodView,
    spec_decode_frame, spec_encode_request,
};
use crate::codec::channel_name;
use crate::correlator::{Correlator, Pending, PendingView};
use crate::registry::Registry;
use crate::spec_channel_name;

verus! {

/// The connection status, readable by external callers for the session's
/// whole life.
#[derive(Debug, PartialEq, Eq)]
pub enum ConnectionStatus {
    Disconnected,
    Connecting,
    Connected,
    Error(String),
}

pub enum StatusView {
    Disconnected,
    Connecting,
    Connected,
    Error(Seq<char>),
}

impl Clone for ConnectionStatus {
    fn clone(&self) -> (r: ConnectionStatus)
        ensures
            r == *self,
    {
        match self {
            ConnectionStatus::Disconnected => ConnectionStatus::Disconnected,
            ConnectionStatus::Connecting => ConnectionStatus::Connecting,
            ConnectionStatus::Connected => ConnectionStatus::Connected,
            ConnectionStatus::Error(m) => ConnectionStatus::Error(m.clone()),
        }
    }
}

impl View for ConnectionStatus {
    type V = StatusView;

    open spec fn view(&self) -> StatusView {
        match self {
            ConnectionStatus::Disconnected => StatusView::Disconnected,
            ConnectionStatus::Connecting => StatusView::Connecting,
            ConnectionStatus::Connected => StatusView::Connected,
            ConnectionStatus::Error(m) => StatusView::Error(m@),
        }
    }
}

/// An event emitted toward the external observer.
#[derive(Debug, PartialEq, Eq)]
pub enum CentrifugoEvent {
    Connected,
    Disconnected { reason: String },
    Error { error: String },
    Subscribed { channel_id: String },
    SubscriptionError { channel_id: String, error: String },
    Publication { channel_id: String, data: String },
}

pub enum EventView {
    Connected,
    Disconnected { reason: Seq<char> },
    Error { error: Seq<char> },
    Subscribed { channel_id: Seq<char> },
    SubscriptionError { channel_id: Seq<char>, error: Seq<char> },
    Publication { channel_id: Seq<char>, data: Seq<char> },
}

impl View for CentrifugoEvent {
    type V = EventView;

    open spec fn view(&self) -> EventView {
        match self {
            CentrifugoEvent::Connected => EventView::Connected,
            CentrifugoEvent::Disconnected { reason } => EventView::Disconnected {
                reason: reason@,
            },
            CentrifugoEvent::Error { error } => EventView::Error { error: error@ },
            CentrifugoEvent::Subscribed { channel_id } => EventView::Subscribed {
                channel_id: channel_id@,
            },
            CentrifugoEvent::SubscriptionError { channel_id, error } => EventView::SubscriptionError {
                channel_id: channel_id@,
                error: error@,
            },
            CentrifugoEvent::Publication { channel_id, data } => EventView::Publication {
                channel_id: channel_id@,
                data: data@,
            },
        }
    }
}

/// A command enqueued by an external caller.
#[derive(Debug, PartialEq, Eq)]
pub enum CentrifugoCommand {
    Connect { url: String, token: String },
    Subscribe { channel_id: String, channel_name: String },
    Unsubscribe { channel_id: String },
    Disconnect,
}

pub enum CommandView {
    Connect { url: Seq<char>, token: Seq<char> },
    Subscribe { channel_id: Seq<char>, channel_name: Seq<char> },
    Unsubscribe { channel_id: Seq<char> },
    Disconnect,
}

impl View for CentrifugoCommand {
    type V = CommandView;

    open spec fn view(&self) -> CommandView {
        match self {
            CentrifugoCommand::Connect { url, token } => CommandView::Connect {
                url: url@,
                token: token@,
            },
            CentrifugoCommand::Subscribe { channel_id, channel_name } => CommandView::Subscribe {
                channel_id: channel_id@,
                channel_name: channel_name@,
            },
            CentrifugoCommand::Unsubscribe { channel_id } => CommandView::Unsubscribe {
                channel_id: channel_id@,
            },
            CentrifugoCommand::Disconnect => CommandView::Disconnect,
        }
    }
}

/// What the I/O loop is asked to do after one step.
#[derive(Debug, PartialEq, Eq)]
pub enum Effect {
    /// Write this text frame to the socket.
    Send(String),
    /// Deliver this event to the observer.
    Emit(CentrifugoEvent),
    /// Close the socket gracefully.
    Close,
}

pub enum EffectView {
    Send(Seq<char>),
    Emit(EventView),
    Close,
}

impl View for Effect {
    type V = EffectView;

    open spec fn view(&self) -> EffectView {
        match self {
            Effect::Send(s) => EffectView::Send(s@),
            Effect::Emit(e) => EffectView::Emit(e@),
            Effect::Close => EffectView::Close,
        }
    }
}

pub open spec fn effects_view(s: Seq<Effect>) -> Seq<EffectView> {
    s.map_values(|e: Effect| e@)
}

/// The session's state as its contracts speak of it.
pub struct SessionView {
    pub status: StatusView,
    /// handle -> channel.
    pub fwd: Map<Seq<char>, Seq<char>>,
    /// channel -> handle.
    pub rev: Map<Seq<char>, Seq<char>>,
    /// Pending requests by id.
    pub table: Map<u64, PendingView>,
    pub next_id: u64,
    /// Every id the correlator has issued, in order.
    pub issued: Seq<u64>,
    pub terminated: bool,
    /// Every channel that a successful subscribe registered, over the whole
    /// session.
    pub subscribed_ever: Set<Seq<char>>,
}

/// One session of the connection: from the connect attempt to a terminal
/// disconnect or error.
pub struct Session {
    pub status: ConnectionStatus,
    pub registry: Registry,
    pub correlator: Correlator,
    pub terminated: bool,
    pub subscribed_ever: Ghost<Set<Seq<char>>>,
}

impl View for Session {
    type V = SessionView;

    open spec fn view(&self) -> SessionView {
        SessionView {
            status: self.status@,
            fwd: self.registry.fwd(),
            rev: self.registry.rev(),
            table: self.correlator.table(),
            next_id: self.correlator.next_id,
            issued: self.correlator.issued@,
            terminated: self.terminated,
            subscribed_ever: self.subscribed_ever@,
        }
    }
}

impl Session {
    pub open spec fn wf(self) -> bool {
        &&& self.registry.wf()
        &&& self.correlator.wf()
        &&& (self.terminated ==> self@.status is Disconnected || self@.status is Error)
        &&& forall|c: Seq<char>|
            #[trigger] self.registry.rev().contains_key(c) ==> self.subscribed_ever@.contains(c)
    }
}

/// The state and effects after the session starts: the implicit connect
/// request, with the reserved id 1, is sent at once, and the handshake is
/// awaited in `Connecting`.
pub open spec fn spec_start(token: Seq<char>) -> (SessionView, Seq<EffectView>) {
    (
        SessionView {
            status: StatusView::Connecting,
            fwd: Map::empty(),
            rev: Map::empty(),
            table: Map::empty(),
            next_id: 2,
            issued: Seq::empty(),
            terminated: false,
            subscribed_ever: Set::empty(),
        },
        seq![EffectView::Send(spec_encode_request(1, MethodView::Connect { token }))],
    )
}

/// The transition for one inbound frame.
pub open spec fn spec_step_frame(v: SessionView, f: FrameView) -> (SessionView, Seq<EffectView>) {
    if v.terminated {
        (v, Seq::empty())
    } else {
        match f {
            FrameView::Ignored => (v, Seq::empty()),
            FrameView::Response { id, error } => {
                if id == 1 {
                    match error {
                        Some(e) => (
                            SessionView {
                                status: StatusView::Error(e.message),
                                terminated: true,
                                ..v
                            },
                            seq![EffectView::Emit(EventView::Error { error: e.message })],
                        ),
                        None => (
                            SessionView { status: StatusView::Connected, ..v },
                            seq![EffectView::Emit(EventView::Connected)],
                        ),
                    }
                } else if v.table.contains_key(id) {
                    let v1 = SessionView { table: v.table.remove(id), ..v };
                    match v.table[id] {
                        PendingView::Subscribe { handle, logical } => match error {
                            Some(e) => (
                                v1,
                                seq![
                                    EffectView::Emit(
                                        EventView::SubscriptionError {
                                            channel_id: handle,
                                            error: e.message,
                                        },
                                    ),
                                ],
                            ),
                            None => {
                                let c = spec_channel_name(logical);
                                let fwd1 = if v1.rev.contains_key(c) {
                                    v1.fwd.remove(v1.rev[c])
                                } else {
                                    v1.fwd
                                };
                                let rev1 = if v1.fwd.contains_key(handle) {
                                    v1.rev.remove(v1.fwd[handle])
                                } else {
                                    v1.rev
                                };
                                (
                                    SessionView {
                                        fwd: fwd1.insert(handle, c),
                                        rev: rev1.insert(c, handle),
                                        subscribed_ever: v1.subscribed_ever.insert(c),
                                        ..v1
                                    },
                                    seq![
                                        EffectView::Emit(
                                            EventView::Subscribed { channel_id: handle },
                                        ),
                                    ],
                                )
                            },
                        },
                        PendingView::Unsubscribe => (v1, Seq::empty()),
                    }
                } else {
                    (v, Seq::empty())
                }
            },
            FrameView::Push { channel, data } => {
                if v.rev.contains_key(channel) {
                    (
                        v,
                        seq![
                            EffectView::Emit(
                                EventView::Publication { channel_id: v.rev[channel], data },
                            ),
                        ],
                    )
                } else {
                    (v, Seq::empty())
                }
            },
        }
    }
}

/// The transition for the socket closing cleanly (a close frame or the end
/// of the stream).
pub open spec fn spec_step_close(v: SessionView) -> (SessionView, Seq<EffectView>) {
    if v.terminated {
        (v, Seq::empty())
    } else {
        (
            SessionView { status: StatusView::Disconnected, terminated: true, ..v },
            seq![
                EffectView::Emit(EventView::Disconnected { reason: "Connection closed"@ }),
            ],
        )
    }
}

/// The transition for a transport failure (connect, read or write).
pub open spec fn spec_step_transport_error(v: SessionView, msg: Seq<char>) -> (
    SessionView,
    Seq<EffectView>,
) {
    if v.terminated {
        (v, Seq::empty())
    } else {
        (
            SessionView { status: StatusView::Error(msg), terminated: true, ..v },
            seq![EffectView::Emit(EventView::Error { error: msg })],
        )
    }
}

/// The transition for one caller command.
pub open spec fn spec_step_command(v: SessionView, cmd: CommandView) -> (
    SessionView,
    Seq<EffectView>,
) {
    if v.terminated {
        (v, Seq::empty())
    } else {
        match cmd {
            CommandView::Connect { url, token } => (v, Seq::empty()),
            CommandView::Subscribe { channel_id, channel_name } => {
                let id = v.next_id;
                let v1 = SessionView {
                    table: v.table.insert(
                        id,
                        PendingView::Subscribe { handle: channel_id, logical: channel_name },
                    ),
                    next_id: (id + 1) as u64,
                    issued: v.issued.push(id),
                    ..v
                };
                (
                    v1,
                    seq![
                        EffectView::Send(
                            spec_encode_request(
                                id,
                                MethodView::Subscribe {
                                    channel: spec_channel_name(channel_name),
                                },
                            ),
                        ),
                    ],
                )
            },
            CommandView::Unsubscribe { channel_id } => {
                if v.fwd.contains_key(channel_id) {
                    let c = v.fwd[channel_id];
                    let id = v.next_id;
                    let v1 = SessionView {
                        fwd: v.fwd.remove(channel_id),
                        rev: v.rev.remove(c),
                        table: v.table.insert(id, PendingView::Unsubscribe),
                        next_id: (id + 1) as u64,
                        issued: v.issued.push(id),
                        ..v
                    };
                    (
                        v1,
                        seq![
                            EffectView::Send(
                                spec_encode_request(id, MethodView::Unsubscribe { channel: c }),
                            ),
                        ],
                    )
                } else {
                    (v, Seq::empty())
                }
            },
            CommandView::Disconnect => (
                SessionView { status: StatusView::Disconnected, terminated: true, ..v },
                seq![
                    EffectView::Close,
                    EffectView::Emit(EventView::Disconnected { reason: "User disconnected"@ }),
                ],
            ),
        }
    }
}

/// The transition for the Command Channel closing (all senders gone).
pub open spec fn spec_step_commands_closed(v: SessionView) -> (SessionView, Seq<EffectView>) {
    if v.terminated {
        (v, Seq::empty())
    } else {
        (
            SessionView { status: StatusView::Disconnected, terminated: true, ..v },
            seq![
                EffectView::Close,
                EffectView::Emit(EventView::Disconnected { reason: "Connection closed"@ }),
            ],
        )
    }
}

impl Session {
    /// Starts a session: fresh registry and correlator, status `Connecting`,
    /// and the connect request (id 1) to send.
    pub fn start(token: String) -> (r: (Session, Vec<Effect>))
        ensures
            r.0.wf(),
            r.0@ == spec_start(token@).0,
            effects_view(r.1@) == spec_start(token@).1,
    {
        let ghost tv = token@;
        let s = Session {
            status: ConnectionStatus::Connecting,
            registry: Registry::new(),
            correlator: Correlator::new(),
            terminated: false,
            subscribed_ever: Ghost(Set::empty()),
        };
        let req = encode_request(1, &CentrifugoMethod::Connect { token });
        let effects = vec![Effect::Send(req)];
        proof {
            assert(effects_view(effects@) =~= spec_start(tv).1);
        }
        (s, effects)
    }

    /// The current status, as `GetStatus` reports it.
    pub fn status(&self) -> (r: ConnectionStatus)
        ensures
            r@ == self@.status,
    {
        match &self.status {
            ConnectionStatus::Disconnected => ConnectionStatus::Disconnected,
            ConnectionStatus::Connecting => ConnectionStatus::Connecting,
            ConnectionStatus::Connected => ConnectionStatus::Connected,
            ConnectionStatus::Error(m) => ConnectionStatus::Error(m.clone()),
        }
    }

    /// Whether the session has reached a terminal state; afterwards every
    /// input is ignored.
    pub fn is_terminated(&self) -> (r: bool)
        ensures
            r == self@.terminated,
    {
        self.terminated
    }

    /// Whether another request id can be issued (a machine limit, not a
    /// protocol one).
    pub fn can_issue(&self) -> (r: bool)
        ensures
            r == (self@.next_id < u64::MAX),
    {
        self.correlator.next_id < u64::MAX
    }

    /// Applies one classified inbound frame.
    pub fn apply_frame(&mut self, f: Frame) -> (r: Vec<Effect>)
        requires
            old(self).wf(),
        ensures
            final(self).wf(),
            final(self)@ == spec_step_frame(old(self)@, f@).0,
            effects_view(r@) == spec_step_frame(old(self)@, f@).1,
    {
        let ghost v0 = self@;
        let ghost fv = f@;
        if self.terminated {
            let r = Vec::new();
            proof {
                assert(effects_view(r@) =~= Seq::<EffectView>::empty());
            }
            return r;
        }
        match f {
            Frame::Ignored => {
                let r = Vec::new();
                proof {
                    assert(effects_view(r@) =~= Seq::<EffectView>::empty());
                }
                r
            },
            Frame::Response { id, error } => {
                if id == 1 {
                    match error {
                        Some(e) => {
                            let ghost mv = e.message@;
                            self.status = ConnectionStatus::Error(e.message.clone());
                            self.terminated = true;
                            let r = vec![
                                Effect::Emit(CentrifugoEvent::Error { error: e.message }),
                            ];
                            proof {
                                assert(effects_view(r@) =~= spec_step_frame(v0, fv).1);
                            }
                            r
                        },
                        None => {
                            self.status = ConnectionStatus::Connected;
                            let r = vec![Effect::Emit(CentrifugoEvent::Connected)];
                            proof {
                                assert(effects_view(r@) =~= spec_step_frame(v0, fv).1);
                            }
                            r
                        },
                    }
                } else {
                    match self.correlator.resolve(id) {
                        Some(Pending::Subscribe { handle, logical }) => {
                            match error {
                                Some(e) => {
                                    let r = vec![
                                        Effect::Emit(
                                            CentrifugoEvent::SubscriptionError {
                                                channel_id: handle,
                                                error: e.message,
                                            },
                                        ),
                                    ];
                                    proof {
                                        assert(effects_view(r@) =~= spec_step_frame(v0, fv).1);
                                    }
                                    r
                                },
                                None => {
                                    let ghost hv = handle@;
                                    let channel = channel_name(logical.as_str());
                                    let ghost cv = channel@;
                                    self.registry.insert(handle.clone(), channel);
                                    self.subscribed_ever = Ghost(
                                        self.subscribed_ever@.insert(cv),
                                    );
                                    let r = vec![
                                        Effect::Emit(
                                            CentrifugoEvent::Subscribed { channel_id: handle },
                                        ),
                                    ];
                                    proof {
                                        assert(effects_view(r@) =~= spec_step_frame(v0, fv).1);
                                        assert forall|c: Seq<char>|
                                            #[trigger] self.registry.rev().contains_key(c)
                                            implies self.subscribed_ever@.contains(c) by {
                                        }
                                    }
                                    r
                                },
                            }
                        },
                        Some(Pending::Unsubscribe) => {
                            let r = Vec::new();
                            proof {
                                assert(effects_view(r@) =~= Seq::<EffectView>::empty());
                            }
                            r
                        },
                        None => {
                            let r = Vec::new();
                            proof {
                                assert(effects_view(r@) =~= Seq::<EffectView>::empty());
                            }
                            r
                        },
                    }
                }
            },
            Frame::Push { channel, data } => {
                match self.registry.handle_of(channel.as_str()) {
                    Some(h) => {
                        let r = vec![
                            Effect::Emit(
                                CentrifugoEvent::Publication { channel_id: h, data },
                            ),
                        ];
                        proof {
                            assert(effects_view(r@) =~= spec_step_frame(v0, fv).1);
                        }
                        r
                    },
                    None => {
                        let r = Vec::new();
                        proof {
                            assert(effects_view(r@) =~= Seq::<EffectView>::empty());
                        }
                        r
                    },
                }
            },
        }
    }

    /// Decodes one inbound text frame and applies it.
    pub fn on_text(&mut self, text: &str) -> (r: Vec<Effect>)
        requires
            old(self).wf(),
        ensures
            final(self).wf(),
            final(self)@ == spec_step_frame(old(self)@, spec_decode_frame(text@)).0,
            effects_view(r@) == spec_step_frame(old(self)@, spec_decode_frame(text@)).1,
    {
        let f = decode_frame(text);
        self.apply_frame(f)
    }

    /// The socket closed cleanly: a close frame arrived or the stream ended.
    pub fn on_close(&mut self) -> (r: Vec<Effect>)
        requires
            old(self).wf(),
        ensures
            final(self).wf(),
            final(self)@ == spec_step_close(old(self)@).0,
            effects_view(r@) == spec_step_close(old(self)@).1,
    {
        if self.terminated {
            let r = Vec::new();
            proof {
                assert(effects_view(r@) =~= Seq::<EffectView>::empty());
            }
            return r;
        }
        self.status = ConnectionStatus::Disconnected;
        self.terminated = true;
        let r = vec![
            Effect::Emit(
                CentrifugoEvent::Disconnected { reason: String::from_str("Connection closed") },
            ),
        ];
        proof {
            assert(effects_view(r@) =~= spec_step_close(old(self)@).1);
        }
        r
    }

    /// The transport failed: the connect attempt, a read or a write.
    pub fn on_transport_error(&mut self, msg: String) -> (r: Vec<Effect>)
        requires
            old(self).wf(),
        ensures
            final(self).wf(),
            final(self)@ == spec_step_transport_error(old(self)@, msg@).0,
            effects_view(r@) == spec_step_transport_error(old(self)@, msg@).1,
    {
        if self.terminated {
            let r = Vec::new();
            proof {
                assert(effects_view(r@) =~= Seq::<EffectView>::empty());
            }
            return r;
        }
        let ghost mv = msg@;
        self.status = ConnectionStatus::Error(msg.clone());
        self.terminated = true;
        let r = vec![Effect::Emit(CentrifugoEvent::Error { error: msg })];
        proof {
            assert(effects_view(r@) =~= spec_step_transport_error(old(self)@, mv).1);
        }
        r
    }

    /// Applies one caller command.
    pub fn on_command(&mut self, cmd: CentrifugoCommand) -> (r: Vec<Effect>)
        requires
            old(self).wf(),
            cmd@ is Subscribe || cmd@ is Unsubscribe ==> old(self)@.next_id < u64::MAX,
        ensures
            final(self).wf(),
            final(self)@ == spec_step_command(old(self)@, cmd@).0,
            effects_view(r@) == spec_step_command(old(self)@, cmd@).1,
    {
        let ghost v0 = self@;
        let ghost cmdv = cmd@;
        if self.terminated {
            let r = Vec::new();
            proof {
                assert(effects_view(r@) =~= Seq::<EffectView>::empty());
            }
            return r;
        }
        match cmd {
            CentrifugoCommand::Connect { url, token } => {
                let r = Vec::new();
                proof {
                    assert(effects_view(r@) =~= Seq::<EffectView>::empty());
                }
                r
            },
            CentrifugoCommand::Subscribe { channel_id, channel_name: logical } => {
                let ghost hv = channel_id@;
                let ghost lv = logical@;
                let wire = channel_name(logical.as_str());
                let id = self.correlator.allocate(
                    Pending::Subscribe { handle: channel_id, logical },
                );
                let req = encode_request(id, &CentrifugoMethod::Subscribe { channel: wire });
                let r = vec![Effect::Send(req)];
                proof {
                    assert(effects_view(r@) =~= spec_step_command(v0, cmdv).1);
                }
                r
            },
            CentrifugoCommand::Unsubscribe { channel_id } => {
                match self.registry.remove_handle(channel_id.as_str()) {
                    Some(c) => {
                        let id = self.correlator.allocate(Pending::Unsubscribe);
                        let req = encode_request(
                            id,
                            &CentrifugoMethod::Unsubscribe { channel: c },
                        );
                        let r = vec![Effect::Send(req)];
                        proof {
                            assert(effects_view(r@) =~= spec_step_command(v0, cmdv).1);
                        }
                        r
                    },
                    None => {
                        let r = Vec::new();
                        proof {
                            assert(effects_view(r@) =~= Seq::<EffectView>::empty());
                        }
                        r
                    },
                }
            },
            CentrifugoCommand::Disconnect => {
                self.status = ConnectionStatus::Disconnected;
                self.terminated = true;
                let r = vec![
                    Effect::Close,
                    Effect::Emit(
                        CentrifugoEvent::Disconnected {
                            reason: String::from_str("User disconnected"),
                        },
                    ),
                ];
                proof {
                    assert(effects_view(r@) =~= spec_step_command(v0, cmdv).1);
                }
                r
            },
        }
    }

    /// The Command Channel closed: every sender is gone, so the session ends
    /// as on an explicit disconnect, with the close attributed to the
    /// connection.
    pub fn on_commands_closed(&mut self) -> (r: Vec<Effect>)
        requires
            old(self).wf(),
        ensures
            final(self).wf(),
            final(self)@ == spec_step_commands_closed(old(self)@).0,
            effects_view(r@) == spec_step_commands_closed(old(self)@).1,
    {
        if self.terminated {
            let r = Vec::new();
            proof {
                assert(effects_view(r@) =~= Seq::<EffectView>::empty());
            }
            return r;
        }
        self.status = ConnectionStatus::Disconnected;
        self.terminated = true;
        let r = vec![
            Effect::Close,
            Effect::Emit(
                CentrifugoEvent::Disconnected { reason: String::from_str("Connection closed") },
            ),
        ];
        proof {
            assert(effects_view(r@) =~= spec_step_commands_closed(old(self)@).1);
        }
        r
    }
}

} // verus!

verus! {

/// A publication is only ever delivered for a channel that a successful
/// subscribe registered earlier in this session: if a step emits
/// `Publication { channel_id, data }`, the frame was a push whose channel
/// the registry maps to exactly that handle, and that channel was recorded
/// when its `Subscribed` event was emitted.  A push for any other channel is
/// dropped without an event.
pub proof fn lemma_publication_requires_subscription(
    s: Session,
    f: FrameView,
    k: int,
    h: Seq<char>,
    d: Seq<char>,
)
    requires
        s.wf(),
        0 <= k < spec_step_frame(s@, f).1.len(),
        spec_step_frame(s@, f).1[k] == EffectView::Emit(
            EventView::Publication { channel_id: h, data: d },
        ),
    ensures
        f matches FrameView::Push { channel, data } && data == d && s@.rev.contains_key(channel)
            && s@.rev[channel] == h && s@.subscribed_ever.contains(channel),
{
}

/// The request ids issued within one session are strictly increasing, so
/// none is ever reused; and none of them is 1, which is reserved for the
/// single implicit connect request sent when the session starts.
pub proof fn lemma_session_ids_strictly_increasing(s: Session)
    requires
        s.wf(),
    ensures
        forall|t1: int, t2: int| 0 <= t1 < t2 < s@.issued.len() ==> s@.issued[t1] < s@.issued[t2],
        forall|t: int| 0 <= t < s@.issued.len() ==> #[trigger] s@.issued[t] != 1,
{
    crate::correlator::lemma_issued_ids_strictly_increasing(s.correlator);
}

/// After a response with id 1 and no error, the status is exactly
/// `Connected`.
pub proof fn lemma_connect_ack_sets_connected(s: Session, f: FrameView)
    requires
        s.wf(),
        !s@.terminated,
        f == (FrameView::Response { id: 1u64, error: Option::<
            crate::codec::ProtocolErrorView,
        >::None }),
    ensures
        spec_step_frame(s@, f).0.status == StatusView::Connected,
{
}

/// A terminated session is silent and fixed: its status is `Disconnected`
/// or `Error`, and no input changes its state or produces an effect.
pub proof fn lemma_terminal_states_silent(
    s: Session,
    f: FrameView,
    cmd: CommandView,
    msg: Seq<char>,
)
    requires
        s.wf(),
        s@.terminated,
    ensures
        s@.status is Disconnected || s@.status is Error,
        spec_step_frame(s@, f) == (s@, Seq::<EffectView>::empty()),
        spec_step_command(s@, cmd) == (s@, Seq::<EffectView>::empty()),
        spec_step_close(s@) == (s@, Seq::<EffectView>::empty()),
        spec_step_transport_error(s@, msg) == (s@, Seq::<EffectView>::empty()),
        spec_step_commands_closed(s@) == (s@, Seq::<EffectView>::empty()),
{
}

} // verus!
