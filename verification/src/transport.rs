//! What the client does with each thing that the connection hands it.
//!
//! The connection itself is driven elsewhere: whoever owns the socket reads
//! one event at a time, asks [`Receiver::on_event`] what it means, and does
//! what the answer says.

use crate::command::SendMessage;
use crate::error::ClientError;
use crate::message::Message;
use vstd::prelude::*;

verus! {

/// Status code of a closure without fault.
pub const NORMAL_CLOSURE: u16 = 1000;

/// Why the other side closes the connection.
#[derive(Debug)]
pub struct CloseFrame {
    pub code: u16,
    pub reason: String,
}

/// One WebSocket frame.
#[derive(Debug)]
pub enum Frame {
    Text(String),
    Binary(Vec<u8>),
    Ping(Vec<u8>),
    Pong(Vec<u8>),
    Close(Option<CloseFrame>),
    /// A raw frame, which a connection does not hand out when it is read.
    Raw,
}

/// Where the receiving side of a connection stands.
#[derive(Copy, Clone, Debug, PartialEq, Eq, Structural)]
pub enum ReceiveState {
    /// Frames may still arrive.
    Open,
    /// The connection has ended.
    Closed,
    /// A failure was reported; nothing follows it.
    Errored,
}

/// What to do after an event of the connection.
#[derive(Debug)]
pub enum Step {
    /// Hand this to the caller as the next item.
    Yield(Result<Message, ClientError>),
    /// Nothing to hand out: read the connection again.
    Again,
    /// The sequence of items has ended.
    End,
}

/// One thing that the connection hands over when it is read: a frame, a
/// failure of the WebSocket layer, or nothing, which is the end of the
/// connection.
pub type Event = Option<Result<Frame, tokio_tungstenite::tungstenite::Error>>;

/// Whether a frame announces a closure without fault.
pub open spec fn is_normal_closure(frame: Frame) -> bool {
    match frame {
        Frame::Close(Some(close)) => close.code == NORMAL_CLOSURE,
        _ => false,
    }
}

/// What to do after `event` in `state`. An event is a frame, a failure of the
/// WebSocket layer, or nothing, which is the end of the connection.
///
/// While the connection is open, a text frame is handed out as a message, a
/// normal closure is passed over, the end of the connection ends the
/// sequence, and anything else is handed out as a failure. Once the
/// connection is closed or has failed, the sequence has ended.
pub open spec fn step_of(
    state: ReceiveState,
    event: Event,
) -> Step {
    if state != ReceiveState::Open {
        Step::End
    } else {
        match event {
            None => Step::End,
            Some(Err(cause)) => Step::Yield(Err(ClientError::WebSocket(cause))),
            Some(Ok(Frame::Text(raw))) => Step::Yield(Ok(Message { raw })),
            Some(Ok(frame)) => if is_normal_closure(frame) {
                Step::Again
            } else {
                Step::Yield(Err(ClientError::UnrecognizedMessage(frame)))
            },
        }
    }
}

/// Where the receiving side stands after `event` in `state`: it stays open
/// after a message or a normal closure, is closed by the end of the
/// connection, and has failed after any failure.
pub open spec fn state_after(
    state: ReceiveState,
    event: Event,
) -> ReceiveState {
    if state != ReceiveState::Open {
        state
    } else {
        match step_of(state, event) {
            Step::Yield(Ok(_)) => ReceiveState::Open,
            Step::Yield(Err(_)) => ReceiveState::Errored,
            Step::Again => ReceiveState::Open,
            Step::End => ReceiveState::Closed,
        }
    }
}

/// The receiving side of one connection.
#[derive(Debug)]
pub struct Receiver {
    state: ReceiveState,
}

impl View for Receiver {
    type V = ReceiveState;

    closed spec fn view(&self) -> ReceiveState {
        self.state
    }
}

impl Receiver {
    /// The receiving side of a connection that was just opened.
    pub fn new() -> (r: Receiver)
        ensures
            r@ == ReceiveState::Open,
    {
        Receiver { state: ReceiveState::Open }
    }

    /// Where the receiving side stands.
    pub fn state(&self) -> (r: ReceiveState)
        ensures
            r == self@,
    {
        self.state
    }

    /// Whether the connection is still to be read.
    pub fn is_open(&self) -> (r: bool)
        ensures
            r == (self@ == ReceiveState::Open),
    {
        self.state == ReceiveState::Open
    }

    /// Takes one event of the connection and says what to do with it.
    pub fn on_event(
        &mut self,
        event: Event,
    ) -> (step: Step)
        ensures
            step == step_of(old(self)@, event),
            final(self)@ == state_after(old(self)@, event),
    {
        if self.state != ReceiveState::Open {
            return Step::End;
        }
        match event {
            None => {
                self.state = ReceiveState::Closed;
                Step::End
            },
            Some(Err(cause)) => {
                self.state = ReceiveState::Errored;
                Step::Yield(Err(ClientError::WebSocket(cause)))
            },
            Some(Ok(Frame::Text(raw))) => Step::Yield(Ok(Message { raw })),
            Some(Ok(frame)) => {
                if closes_normally(&frame) {
                    Step::Again
                } else {
                    self.state = ReceiveState::Errored;
                    Step::Yield(Err(ClientError::UnrecognizedMessage(frame)))
                }
            },
        }
    }
}

/// Whether a frame announces a closure without fault.
fn closes_normally(frame: &Frame) -> (r: bool)
    ensures
        r == is_normal_closure(*frame),
{
    match frame {
        Frame::Close(Some(close)) => close.code == NORMAL_CLOSURE,
        _ => false,
    }
}

/// The frame that carries an outgoing line.
pub fn frame_of(message: SendMessage) -> (r: Frame)
    ensures
        r matches Frame::Text(text) && text@ == message@,
{
    Frame::Text(message.into_string())
}

/// The items that are handed to the caller while the connection hands over
/// `events`, one after the other, starting in `state`.
pub open spec fn yields(state: ReceiveState, events: Seq<Event>) -> Seq<Result<Message, ClientError>>
    decreases events.len(),
{
    if events.len() == 0 {
        Seq::empty()
    } else {
        let rest = yields(state_after(state, events[0]), events.drop_first());
        match step_of(state, events[0]) {
            Step::Yield(item) => seq![item] + rest,
            _ => rest,
        }
    }
}

/// Once the connection is closed or has failed, nothing more is handed out,
/// whatever the connection hands over.
pub proof fn lemma_ended_yields_nothing(state: ReceiveState, events: Seq<Event>)
    requires
        state != ReceiveState::Open,
    ensures
        yields(state, events) == Seq::<Result<Message, ClientError>>::empty(),
    decreases events.len(),
{
    if events.len() > 0 {
        lemma_ended_yields_nothing(state, events.drop_first());
    }
}

/// A failure is handed out at most once, and nothing follows it: every item
/// but the last is a message.
pub proof fn lemma_failure_is_last(state: ReceiveState, events: Seq<Event>, i: int)
    requires
        0 <= i < yields(state, events).len() - 1,
    ensures
        yields(state, events)[i] is Ok,
    decreases events.len(),
{
    if events.len() > 0 {
        let next = state_after(state, events[0]);
        let rest = yields(next, events.drop_first());
        match step_of(state, events[0]) {
            Step::Yield(item) => {
                if item is Err {
                    lemma_ended_yields_nothing(next, events.drop_first());
                } else if i > 0 {
                    lemma_failure_is_last(next, events.drop_first(), i - 1);
                }
            },
            _ => {
                lemma_failure_is_last(next, events.drop_first(), i);
            },
        }
    }
}

/// A normal closure is passed over: when the connection hands over a normal
/// closure and then ends, nothing is handed to the caller, no failure either,
/// and the sequence ends with the connection.
pub proof fn lemma_normal_closure_is_passed_over(close: CloseFrame)
    requires
        close.code == NORMAL_CLOSURE,
    ensures
        step_of(ReceiveState::Open, Some(Ok(Frame::Close(Some(close))))) == Step::Again,
        state_after(ReceiveState::Open, Some(Ok(Frame::Close(Some(close)))))
            == ReceiveState::Open,
        step_of(ReceiveState::Open, None) == Step::End,
        state_after(ReceiveState::Open, None) == ReceiveState::Closed,
        yields(ReceiveState::Open, seq![Some(Ok(Frame::Close(Some(close)))), None]) == Seq::<
            Result<Message, ClientError>,
        >::empty(),
{
    let events: Seq<Event> = seq![Some(Ok(Frame::Close(Some(close)))), None];
    reveal_with_fuel(yields, 3);
    assert(events.drop_first() =~= seq![None]);
    assert(events.drop_first().drop_first() =~= Seq::<Event>::empty());
}

} // verus!
