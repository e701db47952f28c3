//! The exchange of one command over the link, step by step.
//!
//! The link is strictly half-duplex: a request is written, then its response
//! is read, first the three bytes of the head and then as many bytes as the
//! head asks for. An [`Exchange`] takes these steps in order. It says what
//! the link is to do next, takes what the link did, and gathers the bytes of
//! the response. It touches no link itself: the caller writes and reads.
//!
//! The gathered bytes go to the queries of [`crate::command`]. Where the
//! exchange was cut short, they tell why: nothing was read after a failed
//! write, and only the head after a rejection.

use crate::command::{
    encode, frame_fault, frame_size, head_fault, remaining_len, Command, CommandError, HEAD_LEN,
};
use vstd::prelude::*;

verus! {

/// How far an exchange has come.
#[derive(Clone, Copy, Debug, PartialEq, Eq)]
pub enum Stage {
    /// The request is to be written.
    Request,
    /// The request is out; the head of the response is to be read.
    Head,
    /// The head is in and accepted; the rest of the frame is to be read.
    Rest,
    /// The exchange is over.
    Done,
}

/// What the link is to do next.
#[derive(Debug, PartialEq, Eq)]
pub enum LinkAction {
    /// Write these bytes.
    Write(Vec<u8>),
    /// Read exactly this many bytes.
    Read(usize),
    /// Nothing: the exchange is over.
    Done,
}

/// What the link did.
#[derive(Debug, PartialEq, Eq)]
pub enum LinkEvent {
    /// It wrote the bytes.
    Written,
    /// It read these bytes.
    Read(Vec<u8>),
    /// It failed to write or to read, or ran out of time.
    Failed,
}

/// A link action, with its bytes as a sequence.
pub enum LinkActionView {
    /// Write these bytes.
    Write { bytes: Seq<u8> },
    /// Read exactly this many bytes.
    Read { count: int },
    /// Nothing: the exchange is over.
    Done,
}

/// A link event, with its bytes as a sequence.
pub enum LinkEventView {
    /// It wrote the bytes.
    Written,
    /// It read these bytes.
    Read { bytes: Seq<u8> },
    /// It failed to write or to read, or ran out of time.
    Failed,
}

impl View for LinkAction {
    type V = LinkActionView;

    open spec fn view(&self) -> LinkActionView {
        match self {
            LinkAction::Write(bytes) => LinkActionView::Write { bytes: bytes@ },
            LinkAction::Read(count) => LinkActionView::Read { count: *count as int },
            LinkAction::Done => LinkActionView::Done,
        }
    }
}

impl View for LinkEvent {
    type V = LinkEventView;

    open spec fn view(&self) -> LinkEventView {
        match self {
            LinkEvent::Written => LinkEventView::Written,
            LinkEvent::Read(bytes) => LinkEventView::Read { bytes: bytes@ },
            LinkEvent::Failed => LinkEventView::Failed,
        }
    }
}

/// The state of an exchange.
pub struct ExchangeView {
    /// The command that is exchanged.
    pub command: Command,
    /// How far the exchange has come.
    pub stage: Stage,
    /// The bytes of the response that have been read.
    pub response: Seq<u8>,
}

impl ExchangeView {
    /// The state before anything is written.
    pub open spec fn initial(command: Command) -> ExchangeView {
        ExchangeView { command, stage: Stage::Request, response: Seq::empty() }
    }

    /// What every state that an exchange reaches has: nothing is read before
    /// the head, and the rest is read only behind a head that is accepted.
    pub open spec fn wf(self) -> bool {
        match self.stage {
            Stage::Request | Stage::Head => self.response.len() == 0,
            Stage::Rest => self.response.len() == HEAD_LEN && head_fault(
                self.response,
                self.command.response_flag(),
            ) is None,
            Stage::Done => true,
        }
    }

    /// What the link is to do in this state: write the request, read the
    /// three bytes of the head, or read the payload and the trailer that the
    /// head announces.
    pub open spec fn wanted(self) -> LinkActionView {
        match self.stage {
            Stage::Request => LinkActionView::Write { bytes: self.command.request_bytes() },
            Stage::Head => LinkActionView::Read { count: HEAD_LEN as int },
            Stage::Rest => LinkActionView::Read { count: frame_size(self.response) - HEAD_LEN },
            Stage::Done => LinkActionView::Done,
        }
    }

    /// The link did what was wanted of it.
    pub open spec fn served_by(self, event: LinkEventView) -> bool {
        match (self.wanted(), event) {
            (LinkActionView::Write { .. }, LinkEventView::Written) => true,
            (LinkActionView::Read { count }, LinkEventView::Read { bytes }) => bytes.len() == count,
            _ => false,
        }
    }

    /// The state after the link has done something.
    ///
    /// When it did what was wanted, the exchange moves on: from the request
    /// to the head, from a head that is accepted to the rest, and from the
    /// rest to the end. A head that is not accepted ends the exchange, and so
    /// does anything else that the link reports. What was read stays.
    pub open spec fn after(self, event: LinkEventView) -> ExchangeView {
        if !self.served_by(event) {
            ExchangeView { stage: Stage::Done, ..self }
        } else {
            match self.stage {
                Stage::Request => ExchangeView { stage: Stage::Head, ..self },
                Stage::Head => {
                    let head = event->Read_bytes;
                    if head_fault(head, self.command.response_flag()) is None {
                        ExchangeView { stage: Stage::Rest, response: head, ..self }
                    } else {
                        ExchangeView { stage: Stage::Done, response: head, ..self }
                    }
                },
                Stage::Rest => ExchangeView {
                    stage: Stage::Done,
                    response: self.response + event->Read_bytes,
                    ..self
                },
                Stage::Done => self,
            }
        }
    }
}

/// One exchange with the unit: a request and the reading of its response.
pub struct Exchange {
    command: Command,
    stage: Stage,
    response: Vec<u8>,
}

impl View for Exchange {
    type V = ExchangeView;

    closed spec fn view(&self) -> ExchangeView {
        ExchangeView { command: self.command, stage: self.stage, response: self.response@ }
    }
}

impl Exchange {
    #[verifier::type_invariant]
    spec fn inv(self) -> bool {
        self@.wf()
    }

    /// Begins the exchange of a command. Nothing is written yet.
    pub fn begin(command: Command) -> (exchange: Exchange)
        ensures
            exchange@ == ExchangeView::initial(command),
            exchange@.wf(),
    {
        Exchange { command, stage: Stage::Request, response: Vec::new() }
    }

    /// Says what the link is to do next.
    pub fn action(&self) -> (action: LinkAction)
        ensures
            action@ == self@.wanted(),
            self@.wf(),
    {
        proof {
            use_type_invariant(self);
        }
        match self.stage {
            Stage::Request => LinkAction::Write(encode(self.command)),
            Stage::Head => LinkAction::Read(HEAD_LEN),
            Stage::Rest => {
                match remaining_len(self.response.as_slice(), self.command.expected_flag()) {
                    Ok(count) => LinkAction::Read(count),
                    Err(_) => LinkAction::Done,
                }
            },
            Stage::Done => LinkAction::Done,
        }
    }

    /// Takes what the link did and moves the exchange on.
    pub fn advance(self, event: LinkEvent) -> (next: Exchange)
        ensures
            next@ == self@.after(event@),
            next@.wf(),
    {
        proof {
            use_type_invariant(&self);
        }
        let Exchange { command, stage, response } = self;
        match (stage, event) {
            (Stage::Request, LinkEvent::Written) => Exchange {
                command,
                stage: Stage::Head,
                response,
            },
            (Stage::Head, LinkEvent::Read(head)) => {
                if head.len() != HEAD_LEN {
                    Exchange { command, stage: Stage::Done, response }
                } else {
                    match remaining_len(head.as_slice(), command.expected_flag()) {
                        Ok(_) => Exchange { command, stage: Stage::Rest, response: head },
                        Err(_) => Exchange { command, stage: Stage::Done, response: head },
                    }
                }
            },
            (Stage::Rest, LinkEvent::Read(rest)) => {
                match remaining_len(response.as_slice(), command.expected_flag()) {
                    Ok(count) => {
                        if rest.len() == count {
                            let mut response = response;
                            let mut rest = rest;
                            response.append(&mut rest);
                            Exchange { command, stage: Stage::Done, response }
                        } else {
                            Exchange { command, stage: Stage::Done, response }
                        }
                    },
                    Err(_) => Exchange { command, stage: Stage::Done, response },
                }
            },
            _ => Exchange { command, stage: Stage::Done, response },
        }
    }

    /// How far the exchange has come.
    pub fn stage(&self) -> (stage: Stage)
        ensures
            stage == self@.stage,
    {
        self.stage
    }

    /// Ends the exchange and hands out the bytes of the response that were
    /// read.
    pub fn into_response(self) -> (response: Vec<u8>)
        ensures
            response@ == self@.response,
    {
        self.response
    }
}

/// Every step keeps what [`ExchangeView::wf`] says.
pub proof fn lemma_after_keeps_wf(state: ExchangeView, event: LinkEventView)
    requires
        state.wf(),
    ensures
        state.after(event).wf(),
{
}

/// An exchange that the link serves reads one frame and no byte more. The
/// request of the command is written, three bytes are read, and after a head
/// that is accepted the payload and the trailer that it announces: then the
/// exchange is over, and what it has gathered is one whole frame.
pub proof fn lemma_exchange_reads_one_frame(command: Command, head: Seq<u8>, rest: Seq<u8>)
    requires
        head.len() == HEAD_LEN,
        head_fault(head, command.response_flag()) is None,
        rest.len() == frame_size(head) - HEAD_LEN,
    ensures
        ({
            let start = ExchangeView::initial(command);
            let sent = start.after(LinkEventView::Written);
            let headed = sent.after(LinkEventView::Read { bytes: head });
            let done = headed.after(LinkEventView::Read { bytes: rest });
            &&& start.wanted() == LinkActionView::Write { bytes: command.request_bytes() }
            &&& sent.wanted() == LinkActionView::Read { count: HEAD_LEN as int }
            &&& headed.wanted() == LinkActionView::Read { count: frame_size(head) - HEAD_LEN }
            &&& done.wanted() == LinkActionView::Done
            &&& done.response == head + rest
            &&& frame_fault(done.response, command.response_flag()) is None
            &&& frame_size(done.response) == done.response.len()
        }),
{
}

/// A response that is not accepted is not read on. After a head with another
/// flag than the expected one, or with a length of zero, the exchange is over
/// with the head alone, and the head tells what was wrong.
pub proof fn lemma_exchange_stops_at_the_head(command: Command, head: Seq<u8>)
    requires
        head.len() == HEAD_LEN,
        head_fault(head, command.response_flag()) is Some,
    ensures
        ({
            let done = ExchangeView::initial(command).after(LinkEventView::Written).after(
                LinkEventView::Read { bytes: head },
            );
            &&& done.wanted() == LinkActionView::Done
            &&& done.response == head
            &&& frame_fault(done.response, command.response_flag()) == head_fault(
                head,
                command.response_flag(),
            )
        }),
{
}

/// A failure of the link ends the exchange, and what was gathered until then
/// is no whole frame: whoever decodes it is told of the failure.
pub proof fn lemma_exchange_failure_shows(state: ExchangeView, event: LinkEventView)
    requires
        state.wf(),
        state.stage != Stage::Done,
        !state.served_by(event),
    ensures
        state.after(event).wanted() == LinkActionView::Done,
        state.after(event).response == state.response,
        frame_fault(state.after(event).response, state.command.response_flag()) == Some(
            CommandError::Link,
        ),
{
}

} // verus!
