use vstd::prelude::*;

verus! {

/// What the caller reads from the channel after an exchange's write.
#[derive(Debug, Clone, Copy, PartialEq, Eq, Structural)]
pub enum Receive {
    /// Read nothing.
    Nothing,
    /// Read exactly one 20-byte header, the peer's acknowledgement.
    Ack,
    /// Read one whole frame: a header and the body that it declares.
    Frame,
}

/// What a session asks its caller to do next.
#[derive(Debug)]
pub enum Action {
    /// Write `send`, if any, flush, then read what `receive` says and report
    /// the outcome as an `Event`.
    Exchange { send: Option<Vec<u8>>, receive: Receive },
    /// The session is over; its outcome is ready.
    Finish,
}

/// The outcome of the last `Action::Exchange`.
#[derive(Debug)]
pub enum Event {
    /// The write succeeded and these bytes were read.
    Received(Vec<u8>),
    /// The write succeeded and nothing was to be read.
    Completed,
    /// Writing to the channel failed.
    WriteFailed,
    /// Reading from the channel failed or met its end.
    ReadFailed,
}

/// The mathematical value of an `Action`.
pub enum ActionView {
    Exchange { send: Option<Seq<u8>>, receive: Receive },
    Finish,
}

/// The mathematical value of an `Event`.
pub enum EventView {
    Received(Seq<u8>),
    Completed,
    WriteFailed,
    ReadFailed,
}

impl View for Action {
    type V = ActionView;

    open spec fn view(&self) -> ActionView {
        match self {
            Action::Exchange { send, receive } => ActionView::Exchange {
                send: match send {
                    Some(b) => Some(b@),
                    None => None,
                },
                receive: *receive,
            },
            Action::Finish => ActionView::Finish,
        }
    }
}

impl View for Event {
    type V = EventView;

    open spec fn view(&self) -> EventView {
        match self {
            Event::Received(b) => EventView::Received(b@),
            Event::Completed => EventView::Completed,
            Event::WriteFailed => EventView::WriteFailed,
            Event::ReadFailed => EventView::ReadFailed,
        }
    }
}

/// An exchange that writes `frame` and then reads as `receive` says.
pub open spec fn send_then(frame: Seq<u8>, receive: Receive) -> ActionView {
    ActionView::Exchange { send: Some(frame), receive }
}

/// Whether an action writes anything to the channel.
pub open spec fn sends_frame(a: ActionView) -> bool {
    a matches ActionView::Exchange { send: Some(_), .. }
}

} // verus!
