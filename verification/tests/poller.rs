use monitor_write::poller::{interpret_read, ContentPoller, PollStep, Reading};
use monitor_write::protocol::{
    Diagnostic, Interest, RawEvent, Reply, Request, WaitError, WatchRequest, BACKOFF_SECONDS,
};

const TARGET: &str = "/srv/conf/token";

fn quiet(request: Request) -> PollStep {
    PollStep { diagnostic: None, line: None, request }
}

fn line(text: &str, request: Request) -> PollStep {
    PollStep { diagnostic: None, line: Some(text.to_string()), request }
}

fn content(bytes: &[u8]) -> Reply {
    Reply::Content(bytes.to_vec())
}

fn failed(detail: &str) -> Reply {
    Reply::Failed(detail.to_string())
}

fn unnamed(handle: u64) -> RawEvent {
    RawEvent { handle, name: None }
}

fn named(handle: u64, name: &str) -> RawEvent {
    RawEvent { handle, name: Some(name.to_string()) }
}

/// Answers the requests of a wait up to the one for events, with handles
/// `first`, `first + 1`, and so on.
fn arm_all(p: &mut ContentPoller, first: u64) {
    assert_eq!(p.pending(), Request::OpenSource);
    p.step(Reply::Done);
    let mut handle = first;
    while let Request::Arm(_) = p.pending() {
        let step = p.step(Reply::Armed(handle));
        assert_eq!(step.line, None);
        assert_eq!(step.diagnostic, None);
        handle += 1;
    }
    assert_eq!(p.pending(), Request::AwaitEvents);
}

/// Answers the removals and the closing of a wait; hands back the last step.
fn release_all(p: &mut ContentPoller) -> PollStep {
    while let Request::Release(_) = p.pending() {
        p.step(Reply::Done);
    }
    assert_eq!(p.pending(), Request::CloseSource);
    p.step(Reply::Done)
}

#[test]
fn monitor_begins_with_a_read() {
    let p = ContentPoller::new(TARGET.to_string());
    assert_eq!(p.pending(), Request::ReadTarget);
    assert_eq!(p.last_emitted(), "");
    assert_eq!(p.waiter().target(), TARGET);
    assert_eq!(
        p.waiter().ancestors(),
        &vec!["/srv/conf".to_string(), "/srv".to_string(), "/".to_string()]
    );
}

#[test]
fn read_reply_comes_to_a_reading() {
    assert_eq!(
        interpret_read(content(b"hello")),
        Some(Reading { snapshot: "aGVsbG8=".to_string(), failed: false, diagnostic: None })
    );
    assert_eq!(
        interpret_read(Reply::NotFound),
        Some(Reading { snapshot: String::new(), failed: true, diagnostic: None })
    );
    assert_eq!(
        interpret_read(failed("permission denied")),
        Some(Reading {
            snapshot: String::new(),
            failed: true,
            diagnostic: Some(Diagnostic::ReadFailed("permission denied".to_string())),
        })
    );
    assert_eq!(interpret_read(Reply::Done), None);
    assert_eq!(interpret_read(Reply::Armed(1)), None);
    assert_eq!(interpret_read(Reply::Events(vec![])), None);
}

#[test]
fn first_content_is_emitted_and_a_wait_begins() {
    let mut p = ContentPoller::new(TARGET.to_string());
    assert_eq!(p.step(content(b"hello world")), line("aGVsbG8gd29ybGQ=", Request::OpenSource));
    assert_eq!(p.last_emitted(), "aGVsbG8gd29ybGQ=");
    let step = p.step(Reply::Done);
    assert_eq!(
        step,
        quiet(Request::Arm(WatchRequest { path: TARGET.to_string(), interest: Interest::target() }))
    );
}

#[test]
fn empty_content_at_the_start_is_not_emitted() {
    let mut p = ContentPoller::new(TARGET.to_string());
    assert_eq!(p.step(content(b"")), quiet(Request::OpenSource));
}

#[test]
fn unchanged_content_is_not_emitted_again() {
    let mut p = ContentPoller::new(TARGET.to_string());
    assert_eq!(p.step(content(b"v1")), line("djE=", Request::OpenSource));
    arm_all(&mut p, 1);
    p.step(Reply::Events(vec![unnamed(1)]));
    assert_eq!(release_all(&mut p), quiet(Request::ReadTarget));
    assert_eq!(p.step(content(b"v1")), quiet(Request::OpenSource));
    assert_eq!(p.last_emitted(), "djE=");
}

#[test]
fn write_to_the_target_gives_exactly_one_new_line() {
    let mut p = ContentPoller::new(TARGET.to_string());
    assert_eq!(p.step(content(b"v1")), line("djE=", Request::OpenSource));
    arm_all(&mut p, 1);
    let mut lines = Vec::new();
    let step = p.step(Reply::Events(vec![unnamed(1)]));
    lines.extend(step.line);
    while let Request::Release(_) = p.pending() {
        lines.extend(p.step(Reply::Done).line);
    }
    let step = p.step(Reply::Done);
    assert_eq!(step.request, Request::ReadTarget);
    lines.extend(step.line);
    lines.extend(p.step(content(b"v2")).line);
    assert_eq!(lines, vec!["djI=".to_string()]);
    assert_eq!(p.pending(), Request::OpenSource);
}

#[test]
fn replaced_target_is_read_again_after_the_failed_removal_of_its_watch() {
    let mut p = ContentPoller::new(TARGET.to_string());
    p.step(content(b"v1"));
    arm_all(&mut p, 1);
    assert_eq!(p.step(Reply::Events(vec![unnamed(1)])), quiet(Request::Release(4)));
    assert_eq!(p.step(Reply::Done), quiet(Request::Release(3)));
    assert_eq!(p.step(Reply::Done), quiet(Request::Release(2)));
    assert_eq!(p.step(Reply::Done), quiet(Request::Release(1)));
    assert_eq!(p.step(failed("invalid argument")), quiet(Request::CloseSource));
    assert_eq!(
        p.step(Reply::Done),
        PollStep {
            diagnostic: Some(Diagnostic::WaitFailed(WaitError::Release(
                "invalid argument".to_string()
            ))),
            line: None,
            request: Request::Sleep(BACKOFF_SECONDS),
        }
    );
    assert_eq!(p.step(Reply::Done), quiet(Request::ReadTarget));
    assert_eq!(p.step(content(b"v2")), line("djI=", Request::OpenSource));
}

#[test]
fn absent_target_at_the_start_is_met_in_silence() {
    let mut p = ContentPoller::new(TARGET.to_string());
    assert_eq!(p.step(Reply::NotFound), quiet(Request::Sleep(BACKOFF_SECONDS)));
    assert_eq!(BACKOFF_SECONDS, 5);
    assert_eq!(p.step(Reply::Done), quiet(Request::ReadTarget));
    assert_eq!(p.step(Reply::NotFound), quiet(Request::Sleep(5)));
    assert_eq!(p.waiter().watches().len(), 0);
    assert!(!p.waiter().under_way());
}

#[test]
fn parent_renamed_away_leads_to_a_silent_rest() {
    let mut p = ContentPoller::new(TARGET.to_string());
    assert_eq!(p.step(content(b"")), quiet(Request::OpenSource));
    arm_all(&mut p, 1);
    assert_eq!(p.step(Reply::Events(vec![named(3, "conf")])), quiet(Request::Release(4)));
    assert_eq!(release_all(&mut p), quiet(Request::ReadTarget));
    assert_eq!(p.step(Reply::NotFound), quiet(Request::Sleep(BACKOFF_SECONDS)));
}

#[test]
fn target_that_vanishes_after_content_counts_as_empty() {
    let mut p = ContentPoller::new(TARGET.to_string());
    p.step(content(b"v1"));
    arm_all(&mut p, 1);
    p.step(Reply::Events(vec![named(3, "conf")]));
    assert_eq!(release_all(&mut p), quiet(Request::ReadTarget));
    assert_eq!(p.step(Reply::NotFound), line("", Request::Sleep(BACKOFF_SECONDS)));
    assert_eq!(p.step(Reply::Done), quiet(Request::ReadTarget));
    assert_eq!(p.step(Reply::NotFound), quiet(Request::Sleep(BACKOFF_SECONDS)));
    assert_eq!(p.step(Reply::Done), quiet(Request::ReadTarget));
    assert_eq!(p.step(content(b"v1")), line("djE=", Request::OpenSource));
}

#[test]
fn other_read_failure_is_reported_and_followed_by_a_rest() {
    let mut p = ContentPoller::new(TARGET.to_string());
    assert_eq!(
        p.step(failed("permission denied")),
        PollStep {
            diagnostic: Some(Diagnostic::ReadFailed("permission denied".to_string())),
            line: None,
            request: Request::Sleep(5),
        }
    );
    assert_eq!(p.step(Reply::Done), quiet(Request::ReadTarget));
}

#[test]
fn failed_wait_is_reported_and_followed_by_a_rest() {
    let mut p = ContentPoller::new(TARGET.to_string());
    p.step(content(b"v1"));
    assert_eq!(
        p.step(failed("too many open files")),
        PollStep {
            diagnostic: Some(Diagnostic::WaitFailed(WaitError::Open(
                "too many open files".to_string()
            ))),
            line: None,
            request: Request::Sleep(5),
        }
    );
    assert_eq!(p.step(Reply::Done), quiet(Request::ReadTarget));
    assert_eq!(p.step(content(b"v1")), quiet(Request::OpenSource));
}

#[test]
fn unknown_watch_is_reported_and_the_monitor_goes_on() {
    let mut p = ContentPoller::new(TARGET.to_string());
    p.step(content(b"v1"));
    arm_all(&mut p, 1);
    assert_eq!(p.step(Reply::Events(vec![unnamed(42)])), quiet(Request::Release(4)));
    assert_eq!(
        release_all(&mut p),
        PollStep {
            diagnostic: Some(Diagnostic::WaitFailed(WaitError::UnexpectedWatch(42))),
            line: None,
            request: Request::Sleep(5),
        }
    );
    assert_eq!(p.step(Reply::Done), quiet(Request::ReadTarget));
}

#[test]
fn reply_that_does_not_answer_the_request_has_it_repeated() {
    let mut p = ContentPoller::new(TARGET.to_string());
    assert_eq!(p.step(Reply::Done), quiet(Request::ReadTarget));
    assert_eq!(p.step(Reply::Armed(3)), quiet(Request::ReadTarget));
    assert_eq!(p.step(Reply::Events(vec![unnamed(1)])), quiet(Request::ReadTarget));
    p.step(Reply::NotFound);
    assert_eq!(p.step(content(b"v1")), quiet(Request::Sleep(5)));
    assert_eq!(p.step(Reply::NotFound), quiet(Request::Sleep(5)));
    assert_eq!(p.step(failed("x")), quiet(Request::Sleep(5)));
    assert_eq!(p.last_emitted(), "");
    p.step(Reply::Done);
    p.step(content(b"v1"));
    assert_eq!(p.step(content(b"v2")), quiet(Request::OpenSource));
    assert_eq!(p.last_emitted(), "djE=");
}

#[test]
fn monitor_holds_no_watch_between_waits_over_many_cycles() {
    let mut p = ContentPoller::new(TARGET.to_string());
    let mut lines = 0;
    for cycle in 0..120u64 {
        assert_eq!(p.pending(), Request::ReadTarget);
        assert_eq!(p.waiter().watches().len(), 0);
        let body = if cycle % 2 == 0 { b"even".to_vec() } else { b"odd".to_vec() };
        let step = p.step(Reply::Content(body));
        assert!(step.line.is_some());
        lines += 1;
        arm_all(&mut p, cycle * 10);
        assert_eq!(p.waiter().watches().len(), 4);
        p.step(Reply::Events(vec![unnamed(cycle * 10)]));
        assert_eq!(release_all(&mut p), quiet(Request::ReadTarget));
    }
    assert_eq!(lines, 120);
    assert_eq!(p.waiter().watches().len(), 0);
}
