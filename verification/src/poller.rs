//! The monitor itself: read the target, emit its text form where that has
//! changed, wait for the next change, rest after a failure, and again.
//!
//! [`ContentPoller`] holds the state of that loop and decides each step. The
//! driver starts with [`ContentPoller::pending`] and from then on hands each
//! reply to [`ContentPoller::step`], which names the next request.

use vstd::prelude::*;
use crate::encoding::{base64_text, emit_if_changed, encodable, encode_content};
use crate::paths::{ancestor_chain, parent_paths_from_child};
use crate::protocol::{
    BACKOFF_SECONDS,
    Diagnostic,
    DiagnosticView,
    Reply,
    ReplyView,
    Request,
    RequestView,
    WaitErrorView,
    diagnostic_view,
    text_view,
};
use crate::cycles::lemma_poll_step_keeps_well_formed;
use crate::lifecycle::well_formed;
use crate::waiter::{ChangeWaiter, WaiterState, idle_state, pending, started, stepped};

verus! {

/// What the monitor does while no wait is under way.
#[derive(Clone, Copy, Debug, PartialEq, Eq, Structural)]
pub enum Rest {
    /// It reads the target.
    Reading,
    /// It rests after a failure.
    Sleeping,
}

/// The state of the monitor as a mathematical value.
pub struct PollerState {
    pub waiter: WaiterState,
    /// The text emitted last; empty before the first.
    pub last_emitted: Seq<char>,
    pub rest: Rest,
}

/// What one read of the target comes to.
#[derive(Debug, PartialEq, Eq)]
pub struct Reading {
    /// The text form of the content; empty where the target could not be read.
    pub snapshot: String,
    /// The read did not give the target's content.
    pub failed: bool,
    /// What to tell the operator about the read, if anything.
    pub diagnostic: Option<Diagnostic>,
}

/// A [`Reading`] as a mathematical value.
pub struct ReadingView {
    pub snapshot: Seq<char>,
    pub failed: bool,
    pub diagnostic: Option<DiagnosticView>,
}

impl View for Reading {
    type V = ReadingView;

    open spec fn view(&self) -> ReadingView {
        ReadingView {
            snapshot: self.snapshot@,
            failed: self.failed,
            diagnostic: diagnostic_view(self.diagnostic),
        }
    }
}

/// A reading that may be absent, as a mathematical value.
pub open spec fn reading_view(reading: Option<Reading>) -> Option<ReadingView> {
    match reading {
        Some(r) => Some(r@),
        None => None,
    }
}

/// What one step of the monitor hands to the driver.
#[derive(Debug, PartialEq, Eq)]
pub struct PollStep {
    /// A line for the diagnostic stream.
    pub diagnostic: Option<Diagnostic>,
    /// A line for the output: the text form of the target's new content.
    pub line: Option<String>,
    /// What to do next.
    pub request: Request,
}

/// A [`PollStep`] as a mathematical value.
pub struct PollStepView {
    pub diagnostic: Option<DiagnosticView>,
    pub line: Option<Seq<char>>,
    pub request: RequestView,
}

impl View for PollStep {
    type V = PollStepView;

    open spec fn view(&self) -> PollStepView {
        PollStepView {
            diagnostic: diagnostic_view(self.diagnostic),
            line: text_view(self.line),
            request: self.request@,
        }
    }
}

/// The monitor of `target` before its first read.
pub open spec fn initial_state(target: Seq<char>) -> PollerState {
    PollerState {
        waiter: idle_state(target, ancestor_chain(target)),
        last_emitted: Seq::empty(),
        rest: Rest::Reading,
    }
}

/// The monitor is about to read the target.
pub open spec fn reads(s: PollerState) -> bool {
    pending(s.waiter) is None && s.rest is Reading
}

/// The monitor rests after a failure.
pub open spec fn sleeps(s: PollerState) -> bool {
    pending(s.waiter) is None && s.rest is Sleeping
}

/// The monitor waits for the next change.
pub open spec fn waits(s: PollerState) -> bool {
    pending(s.waiter) is Some
}

/// The request that `s` waits to have answered.
pub open spec fn poll_pending(s: PollerState) -> RequestView {
    match pending(s.waiter) {
        Some(request) => request,
        None => match s.rest {
            Rest::Reading => RequestView::ReadTarget,
            Rest::Sleeping => RequestView::Sleep(BACKOFF_SECONDS),
        },
    }
}

/// What a reply to `ReadTarget` comes to: content gives its text form; an
/// absent target gives the empty text and a failure without a diagnostic;
/// any other failure, and content too long to encode, gives the empty text
/// and a failure with one. A reply that does not answer a read comes to
/// nothing.
pub open spec fn read_result(reply: ReplyView) -> Option<ReadingView> {
    match reply {
        ReplyView::Content(bytes) => if encodable(bytes.len()) {
            Some(ReadingView { snapshot: base64_text(bytes), failed: false, diagnostic: None })
        } else {
            Some(
                ReadingView {
                    snapshot: Seq::empty(),
                    failed: true,
                    diagnostic: Some(DiagnosticView::ContentTooLong),
                },
            )
        },
        ReplyView::NotFound => Some(
            ReadingView { snapshot: Seq::empty(), failed: true, diagnostic: None },
        ),
        ReplyView::Failed(detail) => Some(
            ReadingView {
                snapshot: Seq::empty(),
                failed: true,
                diagnostic: Some(DiagnosticView::ReadFailed(detail)),
            },
        ),
        _ => None,
    }
}

/// The line that a read with this snapshot puts out: the snapshot where it
/// differs from the text emitted last, else none.
pub open spec fn line_for(last_emitted: Seq<char>, snapshot: Seq<char>) -> Option<Seq<char>> {
    if snapshot != last_emitted {
        Some(snapshot)
    } else {
        None
    }
}

/// The monitor after a read: the snapshot is the text emitted last; after a
/// failed read it rests, else a wait begins.
pub open spec fn after_reading(s: PollerState, reading: ReadingView) -> PollerState {
    PollerState {
        waiter: if reading.failed {
            s.waiter
        } else {
            started(s.waiter)
        },
        last_emitted: reading.snapshot,
        rest: if reading.failed {
            Rest::Sleeping
        } else {
            Rest::Reading
        },
    }
}

/// The monitor after a step of its wait: when the wait ends well it reads
/// again; when it ends badly it rests.
pub open spec fn after_wait_step(
    s: PollerState,
    waiter: WaiterState,
    finish: Option<Result<(), WaitErrorView>>,
) -> PollerState {
    PollerState {
        waiter,
        last_emitted: s.last_emitted,
        rest: match finish {
            Some(Ok(_)) => Rest::Reading,
            Some(Err(_)) => Rest::Sleeping,
            None => s.rest,
        },
    }
}

/// What the end of a wait tells the operator: its failure.
pub open spec fn wait_diagnostic(finish: Option<Result<(), WaitErrorView>>) -> Option<
    DiagnosticView,
> {
    match finish {
        Some(Err(e)) => Some(DiagnosticView::WaitFailed(e)),
        _ => None,
    }
}

/// The monitor after `reply`, without what it hands to the driver.
pub open spec fn poll_next(s: PollerState, reply: ReplyView) -> PollerState {
    if waits(s) {
        after_wait_step(s, stepped(s.waiter, reply).0, stepped(s.waiter, reply).1)
    } else {
        match s.rest {
            Rest::Reading => match read_result(reply) {
                Some(reading) => after_reading(s, reading),
                None => s,
            },
            Rest::Sleeping => match reply {
                ReplyView::Done => PollerState {
                    waiter: s.waiter,
                    last_emitted: s.last_emitted,
                    rest: Rest::Reading,
                },
                _ => s,
            },
        }
    }
}

/// The line that the step from `s` on `reply` puts out.
pub open spec fn poll_line(s: PollerState, reply: ReplyView) -> Option<Seq<char>> {
    if reads(s) {
        match read_result(reply) {
            Some(reading) => line_for(s.last_emitted, reading.snapshot),
            None => None,
        }
    } else {
        None
    }
}

/// The diagnostic that the step from `s` on `reply` puts out.
pub open spec fn poll_diagnostic(s: PollerState, reply: ReplyView) -> Option<DiagnosticView> {
    if waits(s) {
        wait_diagnostic(stepped(s.waiter, reply).1)
    } else if reads(s) {
        match read_result(reply) {
            Some(reading) => reading.diagnostic,
            None => None,
        }
    } else {
        None
    }
}

/// What the step from `s` on `reply` hands to the driver. A reply that does
/// not answer the pending request puts out nothing and has the request
/// repeated.
pub open spec fn poll_output(s: PollerState, reply: ReplyView) -> PollStepView {
    PollStepView {
        diagnostic: poll_diagnostic(s, reply),
        line: poll_line(s, reply),
        request: poll_pending(poll_next(s, reply)),
    }
}

/// Reads a reply as the answer to `ReadTarget`.
pub fn interpret_read(reply: Reply) -> (reading: Option<Reading>)
    ensures
        reading_view(reading) == read_result(reply@),
{
    match reply {
        Reply::Content(bytes) => match encode_content(&bytes) {
            Some(text) => Some(Reading { snapshot: text, failed: false, diagnostic: None }),
            None => Some(
                Reading {
                    snapshot: String::new(),
                    failed: true,
                    diagnostic: Some(Diagnostic::ContentTooLong),
                },
            ),
        },
        Reply::NotFound => Some(
            Reading { snapshot: String::new(), failed: true, diagnostic: None },
        ),
        Reply::Failed(detail) => Some(
            Reading {
                snapshot: String::new(),
                failed: true,
                diagnostic: Some(Diagnostic::ReadFailed(detail)),
            },
        ),
        _ => None,
    }
}

/// The state and progress of the monitor of one target.
#[derive(Debug)]
pub struct ContentPoller {
    waiter: ChangeWaiter,
    last_emitted: String,
    rest: Rest,
}

impl View for ContentPoller {
    type V = PollerState;

    closed spec fn view(&self) -> PollerState {
        PollerState { waiter: self.waiter@, last_emitted: self.last_emitted@, rest: self.rest }
    }
}

impl ContentPoller {
    /// A monitor of `target` that has emitted nothing yet and is about to
    /// read. The directories above the target are worked out here, once.
    pub fn new(target: String) -> (poller: ContentPoller)
        ensures
            poller@ == initial_state(target@),
            well_formed(poller@.waiter),
    {
        let ancestors = parent_paths_from_child(target.as_str());
        ContentPoller {
            waiter: ChangeWaiter::new(target, ancestors),
            last_emitted: String::new(),
            rest: Rest::Reading,
        }
    }

    /// The waiter that runs the monitor's waits.
    pub fn waiter(&self) -> (waiter: &ChangeWaiter)
        ensures
            waiter@ == self@.waiter,
    {
        &self.waiter
    }

    /// The text emitted last; empty before the first.
    pub fn last_emitted(&self) -> (text: &String)
        ensures
            text@ == self@.last_emitted,
    {
        &self.last_emitted
    }

    /// The request that the driver is to carry out next.
    pub fn pending(&self) -> (request: Request)
        ensures
            request@ == poll_pending(self@),
    {
        match self.waiter.pending() {
            Some(request) => request,
            None => match self.rest {
                Rest::Reading => Request::ReadTarget,
                Rest::Sleeping => Request::Sleep(BACKOFF_SECONDS),
            },
        }
    }

    fn on_read_reply(&mut self, reply: Reply) -> (output: (Option<Diagnostic>, Option<String>))
        requires
            reads(old(self)@),
        ensures
            final(self)@ == poll_next(old(self)@, reply@),
            diagnostic_view(output.0) == poll_diagnostic(old(self)@, reply@),
            text_view(output.1) == poll_line(old(self)@, reply@),
    {
        match interpret_read(reply) {
            Some(reading) => {
                let line = emit_if_changed(&mut self.last_emitted, reading.snapshot);
                if reading.failed {
                    self.rest = Rest::Sleeping;
                } else {
                    self.waiter.start();
                    self.rest = Rest::Reading;
                }
                (reading.diagnostic, line)
            },
            None => (None, None),
        }
    }

    fn on_wait_reply(&mut self, reply: Reply) -> (output: (Option<Diagnostic>, Option<String>))
        requires
            waits(old(self)@),
        ensures
            final(self)@ == poll_next(old(self)@, reply@),
            diagnostic_view(output.0) == poll_diagnostic(old(self)@, reply@),
            text_view(output.1) == poll_line(old(self)@, reply@),
    {
        match self.waiter.step(reply) {
            Some(Ok(_)) => {
                self.rest = Rest::Reading;
                (None, None)
            },
            Some(Err(e)) => {
                self.rest = Rest::Sleeping;
                (Some(Diagnostic::WaitFailed(e)), None)
            },
            None => (None, None),
        }
    }

    fn on_sleep_reply(&mut self, reply: Reply) -> (output: (Option<Diagnostic>, Option<String>))
        requires
            sleeps(old(self)@),
        ensures
            final(self)@ == poll_next(old(self)@, reply@),
            diagnostic_view(output.0) == poll_diagnostic(old(self)@, reply@),
            text_view(output.1) == poll_line(old(self)@, reply@),
    {
        match reply {
            Reply::Done => {
                self.rest = Rest::Reading;
            },
            _ => {},
        }
        (None, None)
    }

    /// Takes the driver's reply to the pending request and decides what
    /// comes next.
    pub fn step(&mut self, reply: Reply) -> (output: PollStep)
        ensures
            final(self)@ == poll_next(old(self)@, reply@),
            output@ == poll_output(old(self)@, reply@),
            well_formed(old(self)@.waiter) ==> well_formed(final(self)@.waiter),
    {
        proof {
            if well_formed(self@.waiter) {
                lemma_poll_step_keeps_well_formed(self@, reply@);
            }
        }
        let (diagnostic, line) = if self.waiter.under_way() {
            self.on_wait_reply(reply)
        } else {
            match self.rest {
                Rest::Reading => self.on_read_reply(reply),
                Rest::Sleeping => self.on_sleep_reply(reply),
            }
        };
        let request = self.pending();
        PollStep { diagnostic, line, request }
    }
}

} // verus!
