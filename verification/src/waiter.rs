//! One wait for the next change: open a notification source, register a
//! watch on the target and on every directory above it, read events until
//! one matters, remove every watch again, close the source.
//!
//! [`ChangeWaiter`] holds the state of that cycle. It never acts: it names
//! the next [`Request`] and takes the driver's [`Reply`] to it.

use vstd::prelude::*;
use crate::matcher::{UnexpectedWatch, batch_verdict, scan_batch};
use crate::protocol::{
    Interest,
    Reply,
    ReplyView,
    Request,
    RequestView,
    WaitError,
    WaitErrorView,
    WatchRequest,
    WatchRequestView,
    ancestor_interest,
    request_view,
    target_interest,
};
use crate::lifecycle::{
    lemma_idle_is_well_formed,
    lemma_started_is_well_formed,
    lemma_step_keeps_well_formed,
    well_formed,
};
use crate::watch_set::{WatchSet, Watches, inserted};

verus! {

/// Where a wait stands.
#[derive(Clone, Copy, Debug, PartialEq, Eq, Structural)]
pub enum WaitPhase {
    /// No wait is under way.
    Idle,
    /// The notification source is being opened.
    Opening,
    /// Watches are being registered; the number tells which comes next:
    /// 0 for the target, `k` for directory `k - 1` of those above it.
    Arming(usize),
    /// All watches are registered and events are awaited.
    Waiting,
    /// The watches are being removed, then the source is closed.
    Releasing,
}

/// The state of a wait as a mathematical value.
pub struct WaiterState {
    pub target: Seq<char>,
    pub ancestors: Seq<Seq<char>>,
    pub watches: Watches,
    pub phase: WaitPhase,
    /// Why the wait will be reported as failed, once a reason is known.
    pub failure: Option<WaitErrorView>,
}

/// An error that may be absent, as a mathematical value.
pub open spec fn failure_view(failure: Option<WaitError>) -> Option<WaitErrorView> {
    match failure {
        Some(e) => Some(e@),
        None => None,
    }
}

/// The end of a wait, where a step reached it, as a mathematical value.
pub open spec fn finish_view(finish: Option<Result<(), WaitError>>) -> Option<
    Result<(), WaitErrorView>,
> {
    match finish {
        Some(Ok(_)) => Some(Ok(())),
        Some(Err(e)) => Some(Err(e@)),
        None => None,
    }
}

/// A registration that may be absent, as a mathematical value.
pub open spec fn planned_view(request: Option<WatchRequest>) -> Option<WatchRequestView> {
    match request {
        Some(r) => Some(r@),
        None => None,
    }
}

/// Registration `k` of a wait: the target first, with the target's interest,
/// then the directories above it, nearest first, each with the interest in
/// entries that move away. There are `1 + ancestors.len()` of them.
pub open spec fn planned_request(
    target: Seq<char>,
    ancestors: Seq<Seq<char>>,
    k: int,
) -> Option<WatchRequestView> {
    if k == 0 {
        Some(WatchRequestView { path: target, interest: target_interest() })
    } else if 0 < k <= ancestors.len() {
        Some(WatchRequestView { path: ancestors[k - 1], interest: ancestor_interest() })
    } else {
        None
    }
}

/// The state before any wait.
pub open spec fn idle_state(target: Seq<char>, ancestors: Seq<Seq<char>>) -> WaiterState {
    WaiterState {
        target,
        ancestors,
        watches: Seq::empty(),
        phase: WaitPhase::Idle,
        failure: None,
    }
}

/// `s` in another phase.
pub open spec fn in_phase(s: WaiterState, phase: WaitPhase) -> WaiterState {
    WaiterState {
        target: s.target,
        ancestors: s.ancestors,
        watches: s.watches,
        phase,
        failure: s.failure,
    }
}

/// `s` on its way out: the watches are to be removed, and the wait will end
/// as `failure` says.
pub open spec fn releasing(s: WaiterState, failure: Option<WaitErrorView>) -> WaiterState {
    WaiterState {
        target: s.target,
        ancestors: s.ancestors,
        watches: s.watches,
        phase: WaitPhase::Releasing,
        failure,
    }
}

/// `s` with other watches.
pub open spec fn with_watches(s: WaiterState, watches: Watches) -> WaiterState {
    WaiterState {
        target: s.target,
        ancestors: s.ancestors,
        watches,
        phase: s.phase,
        failure: s.failure,
    }
}

/// The request that `s` waits to have answered; none where no wait is under
/// way.
pub open spec fn pending(s: WaiterState) -> Option<RequestView> {
    match s.phase {
        WaitPhase::Idle => None,
        WaitPhase::Opening => Some(RequestView::OpenSource),
        WaitPhase::Arming(k) => match planned_request(s.target, s.ancestors, k as int) {
            Some(r) => Some(RequestView::Arm(r)),
            None => None,
        },
        WaitPhase::Waiting => Some(RequestView::AwaitEvents),
        WaitPhase::Releasing => if s.watches.len() > 0 {
            Some(RequestView::Release(s.watches.last().0))
        } else {
            Some(RequestView::CloseSource)
        },
    }
}

/// `s` after a wait was asked for: an idle waiter begins to open the source,
/// one that is under way is left alone.
pub open spec fn started(s: WaiterState) -> WaiterState {
    if s.phase is Idle {
        in_phase(s, WaitPhase::Opening)
    } else {
        s
    }
}

/// The answer to `OpenSource`: on success the target is registered next; on
/// failure the wait is over, and nothing was opened or registered.
pub open spec fn after_open_reply(s: WaiterState, reply: ReplyView) -> (
    WaiterState,
    Option<Result<(), WaitErrorView>>,
) {
    match reply {
        ReplyView::Done => (in_phase(s, WaitPhase::Arming(0)), None),
        ReplyView::Failed(detail) => (
            in_phase(s, WaitPhase::Idle),
            Some(Err(WaitErrorView::Open(detail))),
        ),
        _ => (s, None),
    }
}

/// The answer to registration `k`: on success the handle stands for the
/// path, and the next registration follows or, after the last, the wait for
/// events; on failure every watch made so far is removed.
pub open spec fn after_arm_reply(s: WaiterState, k: usize, reply: ReplyView) -> (
    WaiterState,
    Option<Result<(), WaitErrorView>>,
) {
    match planned_request(s.target, s.ancestors, k as int) {
        Some(request) => match reply {
            ReplyView::Armed(handle) => (
                in_phase(
                    with_watches(s, inserted(s.watches, handle, request.path)),
                    if k < s.ancestors.len() {
                        WaitPhase::Arming((k + 1) as usize)
                    } else {
                        WaitPhase::Waiting
                    },
                ),
                None,
            ),
            ReplyView::Failed(detail) => (releasing(s, Some(WaitErrorView::Arm(detail))), None),
            _ => (s, None),
        },
        None => (s, None),
    }
}

/// The answer to `AwaitEvents`: a batch without a relevant event changes
/// nothing; a relevant event ends the wait well; an event of an unknown
/// watch, or a failed read, ends it badly. Each end removes the watches first.
pub open spec fn after_events_reply(s: WaiterState, reply: ReplyView) -> (
    WaiterState,
    Option<Result<(), WaitErrorView>>,
) {
    match reply {
        ReplyView::Events(events) => match batch_verdict(
            events,
            s.watches,
            s.target,
            s.ancestors,
        ) {
            Ok(relevant) => if relevant {
                (releasing(s, None), None)
            } else {
                (s, None)
            },
            Err(unexpected) => (
                releasing(s, Some(WaitErrorView::UnexpectedWatch(unexpected.handle))),
                None,
            ),
        },
        ReplyView::Failed(detail) => (releasing(s, Some(WaitErrorView::Read(detail))), None),
        _ => (s, None),
    }
}

/// The reason kept when a removal fails: an earlier one stays, else this one.
pub open spec fn first_failure(
    earlier: Option<WaitErrorView>,
    detail: Seq<char>,
) -> Option<WaitErrorView> {
    match earlier {
        Some(e) => Some(e),
        None => Some(WaitErrorView::Release(detail)),
    }
}

/// How a wait ends that met this failure, or none.
pub open spec fn ending(failure: Option<WaitErrorView>) -> Result<(), WaitErrorView> {
    match failure {
        Some(e) => Err(e),
        None => Ok(()),
    }
}

/// The answer to `Release` or `CloseSource`: the watch is forgotten whether
/// or not its removal succeeded, so every watch is tried once; after the last
/// one the source is closed, and with that the wait is over.
pub open spec fn after_release_reply(s: WaiterState, reply: ReplyView) -> (
    WaiterState,
    Option<Result<(), WaitErrorView>>,
) {
    if s.watches.len() > 0 {
        match reply {
            ReplyView::Done => (with_watches(s, s.watches.drop_last()), None),
            ReplyView::Failed(detail) => (
                releasing(
                    with_watches(s, s.watches.drop_last()),
                    first_failure(s.failure, detail),
                ),
                None,
            ),
            _ => (s, None),
        }
    } else {
        match reply {
            ReplyView::Done => (
                WaiterState {
                    target: s.target,
                    ancestors: s.ancestors,
                    watches: s.watches,
                    phase: WaitPhase::Idle,
                    failure: None,
                },
                Some(ending(s.failure)),
            ),
            _ => (s, None),
        }
    }
}

/// `s` after `reply`, and how the wait ended if this reply ended it. A reply
/// that does not answer the pending request changes nothing.
pub open spec fn stepped(s: WaiterState, reply: ReplyView) -> (
    WaiterState,
    Option<Result<(), WaitErrorView>>,
) {
    match s.phase {
        WaitPhase::Idle => (s, None),
        WaitPhase::Opening => after_open_reply(s, reply),
        WaitPhase::Arming(k) => after_arm_reply(s, k, reply),
        WaitPhase::Waiting => after_events_reply(s, reply),
        WaitPhase::Releasing => after_release_reply(s, reply),
    }
}

/// The state and progress of one wait for the next change.
#[derive(Debug)]
pub struct ChangeWaiter {
    target: String,
    ancestors: Vec<String>,
    watches: WatchSet,
    phase: WaitPhase,
    failure: Option<WaitError>,
}

impl View for ChangeWaiter {
    type V = WaiterState;

    closed spec fn view(&self) -> WaiterState {
        WaiterState {
            target: self.target@,
            ancestors: self.ancestors.deep_view(),
            watches: self.watches@,
            phase: self.phase,
            failure: failure_view(self.failure),
        }
    }
}

impl ChangeWaiter {
    /// A waiter for `target` and the directories above it, with no wait
    /// under way.
    pub fn new(target: String, ancestors: Vec<String>) -> (waiter: ChangeWaiter)
        ensures
            waiter@ == idle_state(target@, ancestors.deep_view()),
            well_formed(waiter@),
    {
        proof {
            assert(ancestors.deep_view().len() == ancestors.len());
            lemma_idle_is_well_formed(target@, ancestors.deep_view());
        }
        ChangeWaiter {
            target,
            ancestors,
            watches: WatchSet::new(),
            phase: WaitPhase::Idle,
            failure: None,
        }
    }

    /// The path that is monitored.
    pub fn target(&self) -> (target: &String)
        ensures
            target@ == self@.target,
    {
        &self.target
    }

    /// The directories above the target, nearest first.
    pub fn ancestors(&self) -> (ancestors: &Vec<String>)
        ensures
            ancestors.deep_view() == self@.ancestors,
    {
        &self.ancestors
    }

    /// The watches that the wait under way has registered and not yet removed.
    pub fn watches(&self) -> (watches: &WatchSet)
        ensures
            watches@ == self@.watches,
    {
        &self.watches
    }

    /// Where the wait stands.
    pub fn phase(&self) -> (phase: WaitPhase)
        ensures
            phase == self@.phase,
    {
        self.phase
    }

    /// A wait is under way: a request is pending.
    pub fn under_way(&self) -> (yes: bool)
        ensures
            yes == pending(self@) is Some,
    {
        match self.phase {
            WaitPhase::Idle => false,
            WaitPhase::Arming(k) => k <= self.ancestors.len(),
            _ => true,
        }
    }

    fn planned(&self, k: usize) -> (request: Option<WatchRequest>)
        ensures
            planned_view(request) == planned_request(self@.target, self@.ancestors, k as int),
    {
        if k == 0 {
            Some(WatchRequest { path: self.target.clone(), interest: Interest::target() })
        } else if k - 1 < self.ancestors.len() {
            assert(self.ancestors.deep_view()[k - 1] == self.ancestors[k - 1]@);
            Some(
                WatchRequest { path: self.ancestors[k - 1].clone(), interest: Interest::ancestor() },
            )
        } else {
            None
        }
    }

    /// The request that the driver is to carry out next, or none where no
    /// wait is under way.
    pub fn pending(&self) -> (request: Option<Request>)
        ensures
            request_view(request) == pending(self@),
    {
        match self.phase {
            WaitPhase::Idle => None,
            WaitPhase::Opening => Some(Request::OpenSource),
            WaitPhase::Arming(k) => match self.planned(k) {
                Some(r) => Some(Request::Arm(r)),
                None => None,
            },
            WaitPhase::Waiting => Some(Request::AwaitEvents),
            WaitPhase::Releasing => match self.watches.last_handle() {
                Some(handle) => Some(Request::Release(handle)),
                None => Some(Request::CloseSource),
            },
        }
    }

    /// Begins a wait, unless one is under way.
    pub fn start(&mut self)
        ensures
            final(self)@ == started(old(self)@),
            well_formed(old(self)@) ==> well_formed(final(self)@),
    {
        proof {
            if well_formed(self@) {
                lemma_started_is_well_formed(self@);
            }
        }
        match self.phase {
            WaitPhase::Idle => {
                self.phase = WaitPhase::Opening;
            },
            _ => {},
        }
    }

    fn on_open_reply(&mut self, reply: Reply) -> (finish: Option<Result<(), WaitError>>)
        requires
            old(self).phase is Opening,
        ensures
            final(self)@ == after_open_reply(old(self)@, reply@).0,
            finish_view(finish) == after_open_reply(old(self)@, reply@).1,
    {
        match reply {
            Reply::Done => {
                self.phase = WaitPhase::Arming(0);
                None
            },
            Reply::Failed(detail) => {
                self.phase = WaitPhase::Idle;
                Some(Err(WaitError::Open(detail)))
            },
            _ => None,
        }
    }

    fn on_arm_reply(&mut self, k: usize, reply: Reply) -> (finish: Option<Result<(), WaitError>>)
        requires
            old(self).phase == WaitPhase::Arming(k),
        ensures
            final(self)@ == after_arm_reply(old(self)@, k, reply@).0,
            finish_view(finish) == after_arm_reply(old(self)@, k, reply@).1,
    {
        match self.planned(k) {
            Some(request) => match reply {
                Reply::Armed(handle) => {
                    self.watches.insert(handle, request.path);
                    if k < self.ancestors.len() {
                        self.phase = WaitPhase::Arming(k + 1);
                    } else {
                        self.phase = WaitPhase::Waiting;
                    }
                    None
                },
                Reply::Failed(detail) => {
                    self.phase = WaitPhase::Releasing;
                    self.failure = Some(WaitError::Arm(detail));
                    None
                },
                _ => None,
            },
            None => None,
        }
    }

    fn on_events_reply(&mut self, reply: Reply) -> (finish: Option<Result<(), WaitError>>)
        requires
            old(self).phase is Waiting,
        ensures
            final(self)@ == after_events_reply(old(self)@, reply@).0,
            finish_view(finish) == after_events_reply(old(self)@, reply@).1,
    {
        match reply {
            Reply::Events(events) => {
                match scan_batch(&events, &self.watches, self.target.as_str(), &self.ancestors) {
                    Ok(relevant) => {
                        if relevant {
                            self.phase = WaitPhase::Releasing;
                            self.failure = None;
                        }
                    },
                    Err(unexpected) => {
                        self.phase = WaitPhase::Releasing;
                        self.failure = Some(WaitError::UnexpectedWatch(unexpected.handle));
                    },
                }
                None
            },
            Reply::Failed(detail) => {
                self.phase = WaitPhase::Releasing;
                self.failure = Some(WaitError::Read(detail));
                None
            },
            _ => None,
        }
    }

    fn on_release_reply(&mut self, reply: Reply) -> (finish: Option<Result<(), WaitError>>)
        requires
            old(self).phase is Releasing,
        ensures
            final(self)@ == after_release_reply(old(self)@, reply@).0,
            finish_view(finish) == after_release_reply(old(self)@, reply@).1,
    {
        if self.watches.len() > 0 {
            match reply {
                Reply::Done => {
                    self.watches.drop_last();
                },
                Reply::Failed(detail) => {
                    self.watches.drop_last();
                    if self.failure.is_none() {
                        self.failure = Some(WaitError::Release(detail));
                    }
                },
                _ => {},
            }
            None
        } else {
            match reply {
                Reply::Done => {
                    self.phase = WaitPhase::Idle;
                    match self.failure.take() {
                        Some(e) => Some(Err(e)),
                        None => Some(Ok(())),
                    }
                },
                _ => None,
            }
        }
    }

    /// Takes the driver's reply to the pending request.
    ///
    /// Returns how the wait ended, if this reply ended it. A reply that does
    /// not answer the pending request is passed over.
    pub fn step(&mut self, reply: Reply) -> (finish: Option<Result<(), WaitError>>)
        ensures
            final(self)@ == stepped(old(self)@, reply@).0,
            finish_view(finish) == stepped(old(self)@, reply@).1,
            well_formed(old(self)@) ==> well_formed(final(self)@),
    {
        proof {
            if well_formed(self@) {
                lemma_step_keeps_well_formed(self@, reply@);
            }
        }
        match self.phase {
            WaitPhase::Idle => None,
            WaitPhase::Opening => self.on_open_reply(reply),
            WaitPhase::Arming(k) => self.on_arm_reply(k, reply),
            WaitPhase::Waiting => self.on_events_reply(reply),
            WaitPhase::Releasing => self.on_release_reply(reply),
        }
    }
}

} // verus!
