//! What passes between the monitor and its driver.
//!
//! The monitor decides; the driver acts. Each decision ends in one
//! [`Request`], the driver carries it out and answers with one [`Reply`].

use vstd::prelude::*;

verus! {

/// The number by which the driver names a watch of the notification source.
pub type WatchHandle = u64;

/// Seconds to rest after a failed read or a failed wait.
pub const BACKOFF_SECONDS: u64 = 5;

/// The kinds of change that a watch on one path reports.
#[derive(Clone, Copy, Debug, PartialEq, Eq, Structural)]
pub struct Interest {
    /// An entry was created inside the watched directory.
    pub entry_created: bool,
    /// A file that was open for writing was closed.
    pub write_completed: bool,
    /// The content was modified.
    pub modified: bool,
    /// The watched path itself was renamed.
    pub self_moved: bool,
    /// The watched path itself was deleted.
    pub self_deleted: bool,
    /// An entry was moved out of the watched directory.
    pub child_moved_away: bool,
}

/// What is watched on the target: creation inside it, completed writes,
/// modification, and the target's own renaming and deletion.
pub open spec fn target_interest() -> Interest {
    Interest {
        entry_created: true,
        write_completed: true,
        modified: true,
        self_moved: true,
        self_deleted: true,
        child_moved_away: false,
    }
}

/// What is watched on a directory above the target: an entry moving away, and
/// nothing else.
pub open spec fn ancestor_interest() -> Interest {
    Interest {
        entry_created: false,
        write_completed: false,
        modified: false,
        self_moved: false,
        self_deleted: false,
        child_moved_away: true,
    }
}

impl Interest {
    /// The interest registered on the target.
    pub fn target() -> (interest: Interest)
        ensures
            interest == target_interest(),
    {
        Interest {
            entry_created: true,
            write_completed: true,
            modified: true,
            self_moved: true,
            self_deleted: true,
            child_moved_away: false,
        }
    }

    /// The interest registered on each directory above the target.
    pub fn ancestor() -> (interest: Interest)
        ensures
            interest == ancestor_interest(),
    {
        Interest {
            entry_created: false,
            write_completed: false,
            modified: false,
            self_moved: false,
            self_deleted: false,
            child_moved_away: true,
        }
    }
}

/// A text that may be absent, as a mathematical value.
pub open spec fn text_view(text: Option<String>) -> Option<Seq<char>> {
    match text {
        Some(t) => Some(t@),
        None => None,
    }
}

/// One registration: a path and what to report about it.
#[derive(Debug, PartialEq, Eq)]
pub struct WatchRequest {
    pub path: String,
    pub interest: Interest,
}

/// A [`WatchRequest`] as a mathematical value.
pub struct WatchRequestView {
    pub path: Seq<char>,
    pub interest: Interest,
}

impl View for WatchRequest {
    type V = WatchRequestView;

    open spec fn view(&self) -> WatchRequestView {
        WatchRequestView { path: self.path@, interest: self.interest }
    }
}

/// One notification: the watch it came from and, where it concerns an entry
/// of a watched directory, that entry's name.
#[derive(Debug, PartialEq, Eq)]
pub struct RawEvent {
    pub handle: WatchHandle,
    pub name: Option<String>,
}

/// A [`RawEvent`] as a mathematical value.
pub struct RawEventView {
    pub handle: WatchHandle,
    pub name: Option<Seq<char>>,
}

impl View for RawEvent {
    type V = RawEventView;

    open spec fn view(&self) -> RawEventView {
        RawEventView {
            handle: self.handle,
            name: text_view(self.name),
        }
    }
}

/// The events of a batch as mathematical values, in the order they came.
pub open spec fn event_views(events: Seq<RawEvent>) -> Seq<RawEventView> {
    events.map_values(|e: RawEvent| e@)
}

/// Why a wait for the next change failed.
#[derive(Debug, PartialEq, Eq)]
pub enum WaitError {
    /// The notification source could not be opened.
    Open(String),
    /// A watch could not be registered.
    Arm(String),
    /// Reading the next events failed.
    Read(String),
    /// An event named a watch that this wait did not register.
    UnexpectedWatch(WatchHandle),
    /// A watch could not be removed.
    Release(String),
}

/// A [`WaitError`] as a mathematical value.
pub enum WaitErrorView {
    Open(Seq<char>),
    Arm(Seq<char>),
    Read(Seq<char>),
    UnexpectedWatch(WatchHandle),
    Release(Seq<char>),
}

impl View for WaitError {
    type V = WaitErrorView;

    open spec fn view(&self) -> WaitErrorView {
        match self {
            WaitError::Open(d) => WaitErrorView::Open(d@),
            WaitError::Arm(d) => WaitErrorView::Arm(d@),
            WaitError::Read(d) => WaitErrorView::Read(d@),
            WaitError::UnexpectedWatch(h) => WaitErrorView::UnexpectedWatch(*h),
            WaitError::Release(d) => WaitErrorView::Release(d@),
        }
    }
}

/// How a wait ended, as a mathematical value.
pub open spec fn outcome_view(outcome: Result<(), WaitError>) -> Result<(), WaitErrorView> {
    match outcome {
        Ok(_) => Ok(()),
        Err(e) => Err(e@),
    }
}

/// Something to tell the operator.
#[derive(Debug, PartialEq, Eq)]
pub enum Diagnostic {
    /// The target could not be read, for a reason other than its absence.
    ReadFailed(String),
    /// The target's content is too long to encode.
    ContentTooLong,
    /// The wait for the next change failed.
    WaitFailed(WaitError),
}

/// A [`Diagnostic`] as a mathematical value.
pub enum DiagnosticView {
    ReadFailed(Seq<char>),
    ContentTooLong,
    WaitFailed(WaitErrorView),
}

impl View for Diagnostic {
    type V = DiagnosticView;

    open spec fn view(&self) -> DiagnosticView {
        match self {
            Diagnostic::ReadFailed(d) => DiagnosticView::ReadFailed(d@),
            Diagnostic::ContentTooLong => DiagnosticView::ContentTooLong,
            Diagnostic::WaitFailed(e) => DiagnosticView::WaitFailed(e@),
        }
    }
}

/// A diagnostic that may be absent, as a mathematical value.
pub open spec fn diagnostic_view(diagnostic: Option<Diagnostic>) -> Option<DiagnosticView> {
    match diagnostic {
        Some(d) => Some(d@),
        None => None,
    }
}

/// What the driver is asked to do next.
#[derive(Debug, PartialEq, Eq)]
pub enum Request {
    /// Read the whole target. Answered by [`Reply::Content`],
    /// [`Reply::NotFound`] or [`Reply::Failed`].
    ReadTarget,
    /// Open a notification source for one wait. Answered by [`Reply::Done`]
    /// or [`Reply::Failed`].
    OpenSource,
    /// Register a watch. Answered by [`Reply::Armed`] or [`Reply::Failed`].
    Arm(WatchRequest),
    /// Block until events arrive. Answered by [`Reply::Events`] or
    /// [`Reply::Failed`].
    AwaitEvents,
    /// Remove a watch. Answered by [`Reply::Done`] or [`Reply::Failed`].
    Release(WatchHandle),
    /// Close the notification source. Answered by [`Reply::Done`].
    CloseSource,
    /// Rest for this many seconds. Answered by [`Reply::Done`].
    Sleep(u64),
}

/// A [`Request`] as a mathematical value.
pub enum RequestView {
    ReadTarget,
    OpenSource,
    Arm(WatchRequestView),
    AwaitEvents,
    Release(WatchHandle),
    CloseSource,
    Sleep(u64),
}

impl View for Request {
    type V = RequestView;

    open spec fn view(&self) -> RequestView {
        match self {
            Request::ReadTarget => RequestView::ReadTarget,
            Request::OpenSource => RequestView::OpenSource,
            Request::Arm(r) => RequestView::Arm(r@),
            Request::AwaitEvents => RequestView::AwaitEvents,
            Request::Release(h) => RequestView::Release(*h),
            Request::CloseSource => RequestView::CloseSource,
            Request::Sleep(s) => RequestView::Sleep(*s),
        }
    }
}

/// A request that may be absent, as a mathematical value.
pub open spec fn request_view(request: Option<Request>) -> Option<RequestView> {
    match request {
        Some(r) => Some(r@),
        None => None,
    }
}

/// What the driver found when it carried out a request.
#[derive(Debug, PartialEq, Eq)]
pub enum Reply {
    /// The target's bytes.
    Content(Vec<u8>),
    /// The target does not exist.
    NotFound,
    /// The watch was registered under this handle.
    Armed(WatchHandle),
    /// The events of one wake, in the order they came.
    Events(Vec<RawEvent>),
    /// The request was carried out and has nothing to hand back.
    Done,
    /// The request failed; the text says how.
    Failed(String),
}

/// A [`Reply`] as a mathematical value.
pub enum ReplyView {
    Content(Seq<u8>),
    NotFound,
    Armed(WatchHandle),
    Events(Seq<RawEventView>),
    Done,
    Failed(Seq<char>),
}

impl View for Reply {
    type V = ReplyView;

    open spec fn view(&self) -> ReplyView {
        match self {
            Reply::Content(b) => ReplyView::Content(b@),
            Reply::NotFound => ReplyView::NotFound,
            Reply::Armed(h) => ReplyView::Armed(*h),
            Reply::Events(es) => ReplyView::Events(event_views(es@)),
            Reply::Done => ReplyView::Done,
            Reply::Failed(d) => ReplyView::Failed(d@),
        }
    }
}

} // verus!
