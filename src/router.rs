//! The message router: what the client does with each inbound frame, with the
//! outcome of a file write, and with an interrupt, and how the connection is
//! closed.

use vstd::prelude::*;
use crate::error::{error_text, ClientError};
use crate::json::{
    lemma_save_frame_read_back, message_content, message_type, parse_websocket_message,
    result_json, save_frame, serialize_result_message, ResultMessage,
};
use crate::text::{chars_of, same_chars};

verus! {

/// Close code of a normal closure.
pub const CLOSE_NORMAL: u16 = 1000;

/// Close code of an endpoint that is going away.
pub const CLOSE_GOING_AWAY: u16 = 1001;

/// Where the router stands.
#[derive(Debug, Clone, Copy, PartialEq, Eq, Structural)]
pub enum RouterState {
    /// Waiting for the next inbound frame.
    AwaitingMessage,
    /// A save is being written; its result is owed to the peer.
    Saving,
    /// The peer closed the connection.
    ClosedByPeer,
    /// A malformed frame or a failed connection ended the session.
    ClosedByError,
    /// An interrupt ended the session.
    ClosedByCancellation,
}

impl RouterState {
    /// The session has ended.
    pub open spec fn closed(self) -> bool {
        self is ClosedByPeer || self is ClosedByError || self is ClosedByCancellation
    }
}

/// What happens to the router: a frame arrives, the connection ends or fails,
/// a file write finishes, or an interrupt fires.
#[derive(Debug)]
pub enum Inbound {
    /// A text frame.
    Text(String),
    /// A close frame from the peer.
    Close,
    /// A ping frame.
    Ping,
    /// Any other frame (binary, pong).
    Other,
    /// The stream of frames ended.
    Ended,
    /// Reading the next frame failed; the text says how.
    Failed(String),
    /// The write of a save finished, successfully or not.
    WriteDone(bool),
    /// The interrupt fired.
    Interrupt,
}

/// An event as the contracts see it.
pub enum Event {
    Text(Seq<char>),
    Close,
    Ping,
    Other,
    Ended,
    Failed(Seq<char>),
    WriteDone(bool),
    Interrupt,
}

impl View for Inbound {
    type V = Event;

    open spec fn view(&self) -> Event {
        match self {
            Inbound::Text(t) => Event::Text(t@),
            Inbound::Close => Event::Close,
            Inbound::Ping => Event::Ping,
            Inbound::Other => Event::Other,
            Inbound::Ended => Event::Ended,
            Inbound::Failed(t) => Event::Failed(t@),
            Inbound::WriteDone(ok) => Event::WriteDone(*ok),
            Inbound::Interrupt => Event::Interrupt,
        }
    }
}

/// What the router asks of the connection and the file system.
#[derive(Debug, PartialEq, Eq)]
pub enum Action {
    /// Nothing to do.
    Nothing,
    /// Replace the whole target file with this content.
    WriteFile(String),
    /// Send this text frame.
    Send(String),
    /// Send a close frame with this code and reason; it is the last thing sent.
    Close(u16, String),
}

/// An action as the contracts see it.
pub enum Effect {
    Nothing,
    WriteFile(Seq<char>),
    Send(Seq<char>),
    Close(u16, Seq<char>),
}

impl View for Action {
    type V = Effect;

    open spec fn view(&self) -> Effect {
        match self {
            Action::Nothing => Effect::Nothing,
            Action::WriteFile(c) => Effect::WriteFile(c@),
            Action::Send(t) => Effect::Send(t@),
            Action::Close(code, why) => Effect::Close(*code, why@),
        }
    }
}

/// The reason given to the peer for a save's outcome.
pub open spec fn save_reason(ok: bool) -> Seq<char> {
    if ok {
        "File saved successfully"@
    } else {
        "Failed to save file"@
    }
}

/// The result frame sent after a save whose write succeeded or not.
pub open spec fn save_ack(ok: bool) -> Seq<char> {
    result_json("save_result"@, ok, Some(save_reason(ok)))
}

/// The router's next state and action.
pub open spec fn next(state: RouterState, ev: Event) -> (RouterState, Effect) {
    if state.closed() {
        (state, Effect::Nothing)
    } else if ev is Interrupt {
        (RouterState::ClosedByCancellation, Effect::Close(CLOSE_NORMAL, Seq::empty()))
    } else if state is Saving {
        match ev {
            Event::WriteDone(ok) => (RouterState::AwaitingMessage, Effect::Send(save_ack(ok))),
            _ => (RouterState::Saving, Effect::Nothing),
        }
    } else {
        match ev {
            Event::Text(t) => match message_type(t) {
                None => (
                    RouterState::ClosedByError,
                    Effect::Close(CLOSE_GOING_AWAY, error_text(ClientError::InvalidMessage)),
                ),
                Some(k) => if k == "save"@ && message_content(t) is Some {
                    (RouterState::Saving, Effect::WriteFile(message_content(t)->Some_0))
                } else {
                    (RouterState::AwaitingMessage, Effect::Nothing)
                },
            },
            Event::Close | Event::Ended => (
                RouterState::ClosedByPeer,
                Effect::Close(CLOSE_NORMAL, Seq::empty()),
            ),
            Event::Failed(why) => (RouterState::ClosedByError, Effect::Close(CLOSE_GOING_AWAY, why)),
            _ => (RouterState::AwaitingMessage, Effect::Nothing),
        }
    }
}

/// The result frame to send after a save, given whether its write succeeded.
pub fn save_result_frame(ok: bool) -> (r: String)
    ensures
        r@ == save_ack(ok),
{
    let msg = ResultMessage {
        msg_type: "save_result".to_string(),
        success: ok,
        reason: Some(if ok {
            "File saved successfully".to_string()
        } else {
            "Failed to save file".to_string()
        }),
    };
    serialize_result_message(&msg)
}

/// Moves the router on by one event.
pub fn step(state: RouterState, ev: &Inbound) -> (r: (RouterState, Action))
    ensures
        (r.0, r.1@) == next(state, ev@),
{
    match state {
        RouterState::ClosedByPeer | RouterState::ClosedByError | RouterState::ClosedByCancellation => {
            return (state, Action::Nothing);
        },
        _ => {},
    }
    if let Inbound::Interrupt = ev {
        return (RouterState::ClosedByCancellation, Action::Close(CLOSE_NORMAL, String::new()));
    }
    if let RouterState::Saving = state {
        return match ev {
            Inbound::WriteDone(ok) => (RouterState::AwaitingMessage, Action::Send(save_result_frame(*ok))),
            _ => (RouterState::Saving, Action::Nothing),
        };
    }
    match ev {
        Inbound::Text(t) => match parse_websocket_message(t.as_str()) {
            Err(e) => (RouterState::ClosedByError, Action::Close(CLOSE_GOING_AWAY, e.message())),
            Ok(m) => {
                let save = chars_of("save");
                let kind = chars_of(m.msg_type.as_str());
                let is_save = same_chars(&kind, &save);
                match m.content {
                    Some(c) if is_save => (RouterState::Saving, Action::WriteFile(c)),
                    _ => (RouterState::AwaitingMessage, Action::Nothing),
                }
            },
        },
        Inbound::Close | Inbound::Ended => (
            RouterState::ClosedByPeer,
            Action::Close(CLOSE_NORMAL, String::new()),
        ),
        Inbound::Failed(why) => (RouterState::ClosedByError, Action::Close(CLOSE_GOING_AWAY, why.clone())),
        _ => (RouterState::AwaitingMessage, Action::Nothing),
    }
}

/// The state reached and the actions taken over a sequence of events.
pub open spec fn run_events(state: RouterState, evs: Seq<Event>) -> (RouterState, Seq<Effect>)
    decreases evs.len(),
{
    if evs.len() == 0 {
        (state, Seq::empty())
    } else {
        let (s1, e1) = next(state, evs[0]);
        let (s2, es) = run_events(s1, evs.subrange(1, evs.len() as int));
        (s2, seq![e1] + es)
    }
}

/// The number of file writes among `es`.
pub open spec fn writes(es: Seq<Effect>) -> nat
    decreases es.len(),
{
    if es.len() == 0 {
        0
    } else {
        (if es[0] is WriteFile { 1nat } else { 0nat }) + writes(es.subrange(1, es.len() as int))
    }
}

/// The number of frames sent among `es`.
pub open spec fn sends(es: Seq<Effect>) -> nat
    decreases es.len(),
{
    if es.len() == 0 {
        0
    } else {
        (if es[0] is Send { 1nat } else { 0nat }) + sends(es.subrange(1, es.len() as int))
    }
}

/// One when a save's result is owed, else zero.
pub open spec fn pending(state: RouterState) -> nat {
    if state is Saving { 1 } else { 0 }
}

/// Every save is answered by exactly one result frame: over any run without an
/// interrupt, the writes started (and the one pending at the start) equal the
/// frames sent (and the one pending at the end).
pub proof fn lemma_one_result_per_save(state: RouterState, evs: Seq<Event>)
    requires
        forall|i: int| 0 <= i < evs.len() ==> !(evs[i] is Interrupt),
    ensures
        writes(run_events(state, evs).1) + pending(state) == sends(run_events(state, evs).1) + pending(
            run_events(state, evs).0,
        ),
    decreases evs.len(),
{
    if evs.len() > 0 {
        let (s1, e1) = next(state, evs[0]);
        let rest = evs.subrange(1, evs.len() as int);
        assert forall|i: int| 0 <= i < rest.len() implies !(rest[i] is Interrupt) by {
            assert(rest[i] == evs[i + 1]);
        }
        lemma_one_result_per_save(s1, rest);
        let es = seq![e1] + run_events(s1, rest).1;
        assert(es.subrange(1, es.len() as int) =~= run_events(s1, rest).1);
    }
}

/// The result frame of a save reports exactly whether its write succeeded, and
/// only a finished write makes the router send a frame.
pub proof fn lemma_result_matches_write(state: RouterState, ev: Event, ok: bool)
    ensures
        next(RouterState::Saving, Event::WriteDone(ok)) == (
            RouterState::AwaitingMessage,
            Effect::Send(result_json("save_result"@, ok, Some(save_reason(ok)))),
        ),
        next(state, ev).1 is Send ==> state is Saving && ev is WriteDone,
{
}

/// A message of a type other than `save` is ignored: no action, no change of state.
pub proof fn lemma_unknown_type_ignored(t: Seq<char>)
    requires
        message_type(t) is Some,
        message_type(t)->Some_0 != "save"@,
    ensures
        next(RouterState::AwaitingMessage, Event::Text(t)) == (
            RouterState::AwaitingMessage,
            Effect::Nothing,
        ),
{
}

/// A malformed frame, or a failure to read one, ends the session with an error
/// and a close with code 1001 that carries the error's text.
pub proof fn lemma_malformed_frame_closes_going_away(t: Seq<char>, why: Seq<char>)
    requires
        message_type(t) is None,
    ensures
        next(RouterState::AwaitingMessage, Event::Text(t)) == (
            RouterState::ClosedByError,
            Effect::Close(CLOSE_GOING_AWAY, error_text(ClientError::InvalidMessage)),
        ),
        next(RouterState::AwaitingMessage, Event::Failed(why)) == (
            RouterState::ClosedByError,
            Effect::Close(CLOSE_GOING_AWAY, why),
        ),
{
}

/// A close from the peer, or the end of the stream, ends the session without
/// error and with a close with code 1000 and no reason.
pub proof fn lemma_peer_close_is_normal()
    ensures
        next(RouterState::AwaitingMessage, Event::Close) == (
            RouterState::ClosedByPeer,
            Effect::Close(CLOSE_NORMAL, Seq::empty()),
        ),
        next(RouterState::AwaitingMessage, Event::Ended) == (
            RouterState::ClosedByPeer,
            Effect::Close(CLOSE_NORMAL, Seq::empty()),
        ),
{
}

/// An interrupt ends any open session with a close with code 1000 and no reason.
pub proof fn lemma_interrupt_closes_normally(state: RouterState)
    requires
        !state.closed(),
    ensures
        next(state, Event::Interrupt) == (
            RouterState::ClosedByCancellation,
            Effect::Close(CLOSE_NORMAL, Seq::empty()),
        ),
{
}

/// The close is the last action: once the session has ended, nothing more is done.
pub proof fn lemma_closed_is_final(state: RouterState, evs: Seq<Event>)
    requires
        state.closed(),
    ensures
        run_events(state, evs).0 == state,
        forall|i: int| 0 <= i < run_events(state, evs).1.len() ==> run_events(state, evs).1[i] is Nothing,
    decreases evs.len(),
{
    if evs.len() > 0 {
        lemma_closed_is_final(state, evs.subrange(1, evs.len() as int));
    }
}

/// A save whose content member decodes to `c` makes the router replace the
/// file with exactly `c`.
pub proof fn lemma_save_writes_exact_content(t: Seq<char>, c: Seq<char>)
    requires
        message_type(t) == Some("save"@),
        message_content(t) == Some(c),
    ensures
        next(RouterState::AwaitingMessage, Event::Text(t)) == (
            RouterState::Saving,
            Effect::WriteFile(c),
        ),
{
}

/// The save frame that carries `c`, in the standard JSON encoding, makes the
/// router replace the file with exactly `c`, whatever `c` holds.
pub proof fn lemma_save_frame_writes_exact_content(c: Seq<char>)
    ensures
        next(RouterState::AwaitingMessage, Event::Text(save_frame(c))) == (
            RouterState::Saving,
            Effect::WriteFile(c),
        ),
{
    lemma_save_frame_read_back(c);
    reveal_strlit("save");
}

/// Over a run without an interrupt that starts and ends waiting for a message,
/// the result frames sent are exactly as many as the saves written.
pub proof fn lemma_results_equal_saves(evs: Seq<Event>)
    requires
        forall|i: int| 0 <= i < evs.len() ==> !(evs[i] is Interrupt),
        run_events(RouterState::AwaitingMessage, evs).0 == RouterState::AwaitingMessage,
    ensures
        writes(run_events(RouterState::AwaitingMessage, evs).1) == sends(
            run_events(RouterState::AwaitingMessage, evs).1,
        ),
{
    lemma_one_result_per_save(RouterState::AwaitingMessage, evs);
}

/// A save of `c` whose write succeeds, then a close from the peer: the file is
/// replaced with `c`, one success result is sent, and the connection is closed
/// normally.
pub proof fn lemma_save_then_close(c: Seq<char>)
    ensures
        run_events(
            RouterState::AwaitingMessage,
            seq![Event::Text(save_frame(c)), Event::WriteDone(true), Event::Close],
        ) == (
            RouterState::ClosedByPeer,
            seq![
                Effect::WriteFile(c),
                Effect::Send(save_ack(true)),
                Effect::Close(CLOSE_NORMAL, Seq::empty()),
            ],
        ),
{
    lemma_save_frame_writes_exact_content(c);
    let evs = seq![Event::Text(save_frame(c)), Event::WriteDone(true), Event::Close];
    let e1 = evs.subrange(1, 3);
    let e2 = e1.subrange(1, 2);
    let e3 = e2.subrange(1, 1);
    assert(e1 =~= seq![Event::WriteDone(true), Event::Close]);
    assert(e2 =~= seq![Event::Close]);
    assert(e3 =~= Seq::<Event>::empty());
    let r3 = run_events(RouterState::ClosedByPeer, e3);
    let r2 = run_events(RouterState::AwaitingMessage, e2);
    assert(r2.1 =~= seq![Effect::Close(CLOSE_NORMAL, Seq::empty())]);
    let r1 = run_events(RouterState::Saving, e1);
    assert(r1.1 =~= seq![Effect::Send(save_ack(true)), Effect::Close(CLOSE_NORMAL, Seq::empty())]);
    let r0 = run_events(RouterState::AwaitingMessage, evs);
    assert(r0.1 =~= seq![
        Effect::WriteFile(c),
        Effect::Send(save_ack(true)),
        Effect::Close(CLOSE_NORMAL, Seq::empty()),
    ]);
}

} // verus!
