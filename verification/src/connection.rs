//! Per-connection engine: the state machine one accepted socket runs.
//!
//! A connection moves `Connecting -> Active -> Draining -> Closed`. While
//! `Connecting` or `Active`, its event loop races three sources — decoded
//! inbound frames, broadcast hub deliveries, and admin commands — and hands
//! whichever completes first to the matching method here; the methods decide
//! everything and return the frames to write or publish, while the loop, the
//! socket and the awaiting live outside the library. Any transport failure,
//! orderly disconnect or bus lag sends the engine to `Draining`; `finish`
//! then cleans the registry and reaches `Closed`, from which nothing leaves.

use crate::message::{ChatMessage, MessageTypes};
use crate::rate_limiter::{limiter_step, RateLimiter};
use crate::registry::UserRegistry;
use crate::server::ServerCommand;
use vstd::prelude::*;
use vstd::string::StrSliceExecFns;
use vstd::utf8::{decode_utf8, decode_utf8_encode_utf8, encode_utf8, valid_utf8};

verus! {

/// What the engine asks its caller to do with a frame it produced: write it
/// to this connection's own socket, or publish it on the broadcast hub under
/// this connection's origin id.
pub enum ConnAction {
    SendFrame(ChatMessage),
    Publish(ChatMessage),
}

/// The phase of a connection's life.
#[derive(Debug, Clone, Copy, PartialEq, Eq, Structural)]
pub enum ConnPhase {
    Connecting,
    Active,
    Draining,
    Closed,
}

/// The throttling answer sent for a rate-limited frame.
pub open spec fn rate_limit_notice() -> Seq<char> {
    "rate limit exceeded: message dropped"@
}

/// The answer to a `Join` from a connection that already set a name.
pub open spec fn already_joined_notice() -> Seq<char> {
    "join rejected: a display name is already set"@
}

/// The answer to a `Join` or `UserRename` whose payload is missing or is not
/// valid text.
pub open spec fn invalid_name_notice() -> Seq<char> {
    "name rejected: the payload is not valid text"@
}

/// The answer to a `Join` or `UserRename` asking for a taken name.
pub open spec fn name_taken_notice() -> Seq<char> {
    "name rejected: already taken"@
}

/// The answer to a `UserRename` from a connection that never joined.
pub open spec fn not_joined_notice() -> Seq<char> {
    "rename rejected: no display name set"@
}

/// The farewell written to a kicked connection before it drains.
pub open spec fn kick_notice() -> Seq<char> {
    "You have been kicked by the server"@
}

/// The text fits a frame's payload: at least one byte and within the two-byte
/// length field. Every notice above fits; the bound appears here so that the
/// contracts stay exact for any text.
pub open spec fn notice_fits(text: Seq<char>) -> bool {
    1 <= encode_utf8(text).len() <= 65534
}

/// `out` is exactly the `Error` frame carrying `text`, when `text` fits a
/// frame, and nothing otherwise.
pub open spec fn is_error_notice(out: Option<ChatMessage>, text: Seq<char>) -> bool {
    if notice_fits(text) {
        out matches Some(f) && f.wf() && f@.msg_type is Error && f@.content == Some(
            encode_utf8(text),
        )
    } else {
        out is None
    }
}

/// `actions` is exactly one request to send the `Error` frame carrying
/// `text`, when `text` fits a frame, and empty otherwise.
pub open spec fn error_response(actions: Seq<ConnAction>, text: Seq<char>) -> bool {
    if notice_fits(text) {
        actions.len() == 1 && (actions[0] matches ConnAction::SendFrame(f) && f.wf()
            && f@.msg_type is Error && f@.content == Some(encode_utf8(text)))
    } else {
        actions.len() == 0
    }
}

/// Relies on `String::from_utf8`: it succeeds exactly on valid UTF-8 input
/// and yields the string those bytes encode; this wrapper drops the error's
/// copy of the input.
#[verifier::external_body]
fn string_from_utf8(bytes: Vec<u8>) -> (r: Option<String>)
    ensures
        r is Some <==> valid_utf8(bytes@),
        r matches Some(s) ==> s@ == decode_utf8(bytes@),
{
    String::from_utf8(bytes).ok()
}

/// The `Error` frame carrying `text`, when `text` fits a frame's payload.
fn error_frame(text: &str) -> (out: Option<ChatMessage>)
    ensures
        is_error_notice(out, text@),
{
    let bytes = text.as_bytes_vec();
    let n = bytes.len();
    if 1 <= n && n <= 65534 {
        match ChatMessage::try_new(MessageTypes::Error, Some(bytes)) {
            Ok(f) => Some(f),
            Err(_) => None,
        }
    } else {
        None
    }
}

/// One request to send the `Error` frame carrying `text`, when it fits.
fn error_actions(text: &str) -> (actions: Vec<ConnAction>)
    ensures
        error_response(actions@, text@),
{
    let mut v: Vec<ConnAction> = Vec::new();
    match error_frame(text) {
        Some(f) => {
            v.push(ConnAction::SendFrame(f));
        },
        None => {},
    }
    v
}

/// A delivery with origin `origin` is forwarded to the connection with id
/// `conn_id`: every connection but the publisher itself.
pub open spec fn forwards_delivery(conn_id: u64, origin: u64) -> bool {
    origin != conn_id
}

/// A kick naming `victim` targets a connection exactly when that connection's
/// current display name is `victim`.
pub open spec fn kick_targets(name: Option<Seq<char>>, victim: Seq<char>) -> bool {
    name == Some(victim)
}

/// The engine of one accepted connection. The socket itself, and the
/// subscriptions this engine's loop polls, are held by the caller; the engine
/// holds what the decisions need: its origin id, its phase, its display name
/// and its rate limiter.
pub struct UserConnection {
    conn_id: u64,
    phase: ConnPhase,
    chat_name: Option<String>,
    rate_limiter: RateLimiter,
}

impl UserConnection {
    /// The connection's origin id, distinguishing it on the broadcast hub.
    pub closed spec fn id(self) -> u64 {
        self.conn_id
    }

    /// The connection's phase.
    pub closed spec fn phase(self) -> ConnPhase {
        self.phase
    }

    /// The display name this connection holds, if it joined.
    pub closed spec fn name_view(self) -> Option<Seq<char>> {
        match self.chat_name {
            Some(n) => Some(n@),
            None => None,
        }
    }

    /// The rate limiter's state.
    pub closed spec fn limiter(self) -> RateLimiter {
        self.rate_limiter
    }

    /// A closed connection holds no name — `finish` gave it back — and any
    /// name held fits a frame's payload, so the `Leave` farewell always
    /// encodes.
    pub closed spec fn wf(self) -> bool {
        &&& (self.phase is Closed ==> self.chat_name is None)
        &&& match self.chat_name {
            Some(n) => 1 <= encode_utf8(n@).len() <= 65534,
            None => true,
        }
    }

    /// A fresh engine for an accepted connection: `Connecting`, unnamed, its
    /// rate limiter admitting `max_messages` per `window_ms` with the first
    /// window starting at `now_ms`.
    pub fn new(conn_id: u64, max_messages: u32, window_ms: u64, now_ms: u64) -> (r: Self)
        ensures
            r.wf(),
            r.id() == conn_id,
            r.phase() is Connecting,
            r.name_view() is None,
            r.limiter() == (RateLimiter {
                max_messages,
                window_ms,
                window_start_ms: now_ms,
                count: 0,
            }),
    {
        UserConnection {
            conn_id,
            phase: ConnPhase::Connecting,
            chat_name: None,
            rate_limiter: RateLimiter::new(max_messages, window_ms, now_ms),
        }
    }

    /// The connection's origin id.
    pub fn conn_id(&self) -> (r: u64)
        ensures
            r == self.id(),
    {
        self.conn_id
    }

    /// The connection's phase.
    pub fn current_phase(&self) -> (r: ConnPhase)
        ensures
            r == self.phase(),
    {
        self.phase
    }

    /// The display name this connection holds, if it joined.
    pub fn display_name(&self) -> (r: &Option<String>)
        ensures
            r is Some <==> self.name_view() is Some,
            r matches Some(n) ==> self.name_view() == Some(n@),
    {
        &self.chat_name
    }

    /// Handles one decoded inbound frame, arriving at `now_ms`. Receiving a
    /// frame activates a connecting engine. The frame first passes the rate
    /// limiter; a rejected one is dropped and answered with an `Error` frame,
    /// touching neither registry nor name. An admitted `ChatMessage` is
    /// published to the hub unchanged; `Join` registers the payload as this
    /// connection's display name unless one is set, the payload is not valid
    /// text, or the name is taken, each answered with an `Error` frame and no
    /// state change; `UserRename` swaps the registered name atomically under
    /// the same checks. `Leave`, `Error` and `Unknown` frames are ignored: the
    /// server announces departures itself when a connection closes.
    pub fn process_message(
        &mut self,
        registry: &mut UserRegistry,
        msg: ChatMessage,
        now_ms: u64,
    ) -> (actions: Vec<ConnAction>)
        requires
            old(self).wf(),
            old(registry).wf(),
            msg.wf(),
            old(self).phase() is Connecting || old(self).phase() is Active,
        ensures
            final(self).wf(),
            final(registry).wf(),
            final(self).id() == old(self).id(),
            final(self).phase() is Active,
            final(self).limiter() == limiter_step(old(self).limiter(), now_ms).0,
            ({
                let admitted = limiter_step(old(self).limiter(), now_ms).1;
                if !admitted {
                    &&& error_response(actions@, rate_limit_notice())
                    &&& final(self).name_view() == old(self).name_view()
                    &&& *final(registry) == *old(registry)
                } else {
                    match msg@.msg_type {
                        MessageTypes::ChatMessage => {
                            &&& actions@ == seq![ConnAction::Publish(msg)]
                            &&& final(self).name_view() == old(self).name_view()
                            &&& *final(registry) == *old(registry)
                        },
                        MessageTypes::Join => Self::join_outcome(
                            msg@.content,
                            old(self).name_view(),
                            *old(registry),
                            final(self).name_view(),
                            *final(registry),
                            actions@,
                        ),
                        MessageTypes::UserRename => Self::rename_outcome(
                            msg@.content,
                            old(self).name_view(),
                            *old(registry),
                            final(self).name_view(),
                            *final(registry),
                            actions@,
                        ),
                        _ => {
                            &&& actions@ == Seq::<ConnAction>::empty()
                            &&& final(self).name_view() == old(self).name_view()
                            &&& *final(registry) == *old(registry)
                        },
                    }
                }
            }),
    {
        self.phase = ConnPhase::Active;
        let admitted = self.rate_limiter.check_message(now_ms);
        if !admitted {
            return error_actions("rate limit exceeded: message dropped");
        }
        match msg.get_type() {
            MessageTypes::ChatMessage => {
                let mut v: Vec<ConnAction> = Vec::new();
                v.push(ConnAction::Publish(msg));
                v
            },
            MessageTypes::Join => {
                if self.chat_name.is_some() {
                    return error_actions("join rejected: a display name is already set");
                }
                match msg.into_content() {
                    Some(bytes) => {
                        let ghost bytes_view = bytes@;
                        match string_from_utf8(bytes) {
                            Some(name) => {
                                let registered = registry.join(name.clone());
                                if registered {
                                    proof {
                                        decode_utf8_encode_utf8(bytes_view);
                                    }
                                    self.chat_name = Some(name);
                                    Vec::new()
                                } else {
                                    error_actions("name rejected: already taken")
                                }
                            },
                            None => error_actions("name rejected: the payload is not valid text"),
                        }
                    },
                    None => error_actions("name rejected: the payload is not valid text"),
                }
            },
            MessageTypes::UserRename => {
                if self.chat_name.is_none() {
                    return error_actions("rename rejected: no display name set");
                }
                match msg.into_content() {
                    Some(bytes) => {
                        let ghost bytes_view = bytes@;
                        match string_from_utf8(bytes) {
                            Some(name) => {
                                let renamed = match &self.chat_name {
                                    Some(current) => registry.rename(current, name.clone()),
                                    None => false,
                                };
                                if renamed {
                                    proof {
                                        decode_utf8_encode_utf8(bytes_view);
                                    }
                                    self.chat_name = Some(name);
                                    Vec::new()
                                } else {
                                    error_actions("name rejected: already taken")
                                }
                            },
                            None => error_actions("name rejected: the payload is not valid text"),
                        }
                    },
                    None => error_actions("name rejected: the payload is not valid text"),
                }
            },
            _ => Vec::new(),
        }
    }

    /// What handling a `Join` payload did: with a name already set, a payload
    /// that is not valid text, or a taken name, an `Error` answer and no
    /// change; otherwise the decoded name becomes this connection's and joins
    /// the registered set.
    pub open spec fn join_outcome(
        content: Option<Seq<u8>>,
        old_name: Option<Seq<char>>,
        old_reg: UserRegistry,
        new_name: Option<Seq<char>>,
        new_reg: UserRegistry,
        actions: Seq<ConnAction>,
    ) -> bool {
        if old_name is Some {
            &&& error_response(actions, already_joined_notice())
            &&& new_name == old_name
            &&& new_reg == old_reg
        } else if !(content matches Some(b) && valid_utf8(b)) {
            &&& error_response(actions, invalid_name_notice())
            &&& new_name == old_name
            &&& new_reg == old_reg
        } else {
            let nm = decode_utf8(content->Some_0);
            if old_reg@.contains(nm) {
                &&& error_response(actions, name_taken_notice())
                &&& new_name == old_name
                &&& new_reg == old_reg
            } else {
                &&& new_name == Some(nm)
                &&& new_reg@ == old_reg@.insert(nm)
                &&& actions.len() == 0
            }
        }
    }

    /// What handling a `UserRename` payload did: with no name set, a payload
    /// that is not valid text, the old name unregistered or the new one
    /// taken, an `Error` answer and no change; otherwise the old name leaves
    /// the registered set and the new one enters it in the same step, and the
    /// connection holds the new name.
    pub open spec fn rename_outcome(
        content: Option<Seq<u8>>,
        old_name: Option<Seq<char>>,
        old_reg: UserRegistry,
        new_name: Option<Seq<char>>,
        new_reg: UserRegistry,
        actions: Seq<ConnAction>,
    ) -> bool {
        if old_name is None {
            &&& error_response(actions, not_joined_notice())
            &&& new_name == old_name
            &&& new_reg == old_reg
        } else if !(content matches Some(b) && valid_utf8(b)) {
            &&& error_response(actions, invalid_name_notice())
            &&& new_name == old_name
            &&& new_reg == old_reg
        } else {
            let nm = decode_utf8(content->Some_0);
            if old_reg@.contains(old_name->Some_0) && !old_reg@.contains(nm) {
                &&& new_name == Some(nm)
                &&& new_reg@ == old_reg@.remove(old_name->Some_0).insert(nm)
                &&& actions.len() == 0
            } else {
                &&& error_response(actions, name_taken_notice())
                &&& new_name == old_name
                &&& new_reg == old_reg
            }
        }
    }

    /// Handles one broadcast hub delivery: the frame is returned for writing
    /// to this connection's socket exactly when it originates from another
    /// connection; a connection never hears its own publication back.
    pub fn on_delivery(&self, msg: ChatMessage, origin: u64) -> (out: Option<ChatMessage>)
        ensures
            out == (if forwards_delivery(self.id(), origin) {
                Some(msg)
            } else {
                None::<ChatMessage>
            }),
    {
        if origin != self.conn_id {
            Some(msg)
        } else {
            None
        }
    }

    /// Handles one admin command: a kick naming this connection's current
    /// display name sends the engine to `Draining` and returns the farewell
    /// `Error` frame to write; a kick naming anyone else changes nothing.
    pub fn on_admin(&mut self, cmd: &ServerCommand) -> (out: Option<ChatMessage>)
        requires
            old(self).wf(),
        ensures
            final(self).wf(),
            final(self).id() == old(self).id(),
            final(self).name_view() == old(self).name_view(),
            final(self).limiter() == old(self).limiter(),
            match *cmd {
                ServerCommand::Kick(victim) => {
                    if kick_targets(old(self).name_view(), victim@) {
                        &&& final(self).phase() is Draining
                        &&& is_error_notice(out, kick_notice())
                    } else {
                        &&& *final(self) == *old(self)
                        &&& out is None
                    }
                },
            },
    {
        match cmd {
            ServerCommand::Kick(victim) => {
                let targeted = match &self.chat_name {
                    Some(current) => *current == *victim,
                    None => false,
                };
                if targeted {
                    self.phase = ConnPhase::Draining;
                    error_frame("You have been kicked by the server")
                } else {
                    None
                }
            },
        }
    }

    /// Records that this connection's transport failed, its peer disconnected
    /// or one of its bus subscriptions lagged or closed: the engine drains;
    /// no further reads or writes will be attempted and `finish` runs next.
    pub fn begin_drain(&mut self)
        requires
            old(self).wf(),
        ensures
            final(self).wf(),
            final(self).phase() is Draining,
            final(self).id() == old(self).id(),
            final(self).name_view() == old(self).name_view(),
            final(self).limiter() == old(self).limiter(),
    {
        self.phase = ConnPhase::Draining;
    }

    /// Closes the connection: if a display name was set it leaves the
    /// registered set — the registry never keeps a name for a closed
    /// connection — and the `Leave` frame carrying it is returned for the
    /// caller to publish, exactly once, whatever path led here. From `Closed`
    /// no transition leaves.
    pub fn finish(&mut self, registry: &mut UserRegistry) -> (leave: Option<ChatMessage>)
        requires
            old(self).wf(),
            old(registry).wf(),
        ensures
            final(self).wf(),
            final(registry).wf(),
            final(self).phase() is Closed,
            final(self).name_view() is None,
            final(self).id() == old(self).id(),
            match old(self).name_view() {
                Some(nm) => {
                    &&& final(registry)@ == old(registry)@.remove(nm)
                    &&& !final(registry)@.contains(nm)
                    &&& leave matches Some(f) && f.wf() && f@.msg_type is Leave && f@.content
                        == Some(encode_utf8(nm))
                },
                None => *final(registry) == *old(registry) && leave is None,
            },
    {
        self.phase = ConnPhase::Closed;
        let name = self.chat_name.take();
        match name {
            Some(n) => {
                registry.leave(&n);
                match ChatMessage::try_new(
                    MessageTypes::Leave,
                    Some(n.as_str().as_bytes_vec()),
                ) {
                    Ok(f) => Some(f),
                    Err(_) => None,
                }
            },
            None => None,
        }
    }
}

/// Of connections whose display names are pairwise distinct where set — as
/// they are when each name is registered, since the registry holds a set — a
/// kick targets at most one of them, and it targets the one holding the
/// kicked name.
pub proof fn lemma_kick_exactly_one(names: Seq<Option<Seq<char>>>, victim: Seq<char>)
    requires
        forall|i: int, j: int|
            0 <= i < j < names.len() && names[i] is Some ==> names[i] != names[j],
    ensures
        forall|i: int, j: int|
            0 <= i < names.len() && 0 <= j < names.len() && kick_targets(names[i], victim)
                && kick_targets(names[j], victim) ==> i == j,
        forall|i: int|
            0 <= i < names.len() && names[i] == Some(victim) ==> kick_targets(names[i], victim),
{
}

/// Publishing appends to the hub's log, so a subscriber standing at the old
/// head reads exactly the published entry next, and the engines forward it to
/// every connection except its publisher: it reaches the others and is never
/// echoed back.
pub proof fn lemma_broadcast_no_echo(
    entries: Seq<(ChatMessage, u64)>,
    msg: ChatMessage,
    publisher: u64,
    other_a: u64,
    other_b: u64,
)
    requires
        other_a != publisher,
        other_b != publisher,
    ensures
        entries.push((msg, publisher))[entries.len() as int] == (msg, publisher),
        forwards_delivery(other_a, publisher),
        forwards_delivery(other_b, publisher),
        !forwards_delivery(publisher, publisher),
{
}

} // verus!
