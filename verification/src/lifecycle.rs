//! What holds of every state that a wait can reach, whatever the driver
//! answers: no watch outlives its wait, every watch is removed once, and a
//! wait that was given distinct handles watches every path.

use vstd::prelude::*;
use crate::matcher::{UnexpectedWatch, batch_verdict};
use crate::protocol::{RawEventView, ReplyView, RequestView, WaitErrorView, WatchHandle};
use crate::watch_set::{
    Watches,
    distinct_handles,
    lemma_inserted_keeps_distinct,
    lemma_lookup_inserted,
    lemma_position,
    lookup,
    position,
};
use crate::waiter::{
    WaitPhase,
    WaiterState,
    idle_state,
    pending,
    planned_request,
    started,
    stepped,
};

verus! {

/// Every watch of `s` stands for the target or for a directory above it.
pub open spec fn watches_known_paths(s: WaiterState) -> bool {
    forall|i: int|
        0 <= i < s.watches.len() ==> (#[trigger] s.watches[i]).1 == s.target
            || s.ancestors.contains(s.watches[i].1)
}

/// What holds of a wait at every moment: no handle is held twice, every watch
/// stands for the target or a directory above it, there are never more
/// watches than paths, none while no source is open, and a failure is
/// remembered only while the watches are being removed.
pub open spec fn well_formed(s: WaiterState) -> bool {
    &&& s.ancestors.len() <= usize::MAX
    &&& distinct_handles(s.watches)
    &&& watches_known_paths(s)
    &&& match s.phase {
        WaitPhase::Idle => s.watches.len() == 0 && s.failure is None,
        WaitPhase::Opening => s.watches.len() == 0 && s.failure is None,
        WaitPhase::Arming(k) => k <= s.ancestors.len() && s.watches.len() <= k && s.failure
            is None,
        WaitPhase::Waiting => s.watches.len() <= s.ancestors.len() + 1 && s.failure is None,
        WaitPhase::Releasing => s.watches.len() <= s.ancestors.len() + 1,
    }
}

/// The state that a wait reaches from `s` when the driver gives `replies`,
/// one after the other.
pub open spec fn run(s: WaiterState, replies: Seq<ReplyView>) -> WaiterState
    decreases replies.len(),
{
    if replies.len() == 0 {
        s
    } else {
        stepped(run(s, replies.drop_last()), replies.last()).0
    }
}

/// A waiter starts out well formed.
pub proof fn lemma_idle_is_well_formed(target: Seq<char>, ancestors: Seq<Seq<char>>)
    requires
        ancestors.len() <= usize::MAX,
    ensures
        well_formed(idle_state(target, ancestors)),
{
}

/// Beginning a wait keeps the waiter well formed.
pub proof fn lemma_started_is_well_formed(s: WaiterState)
    requires
        well_formed(s),
    ensures
        well_formed(started(s)),
{
}

/// Whatever the driver answers, the waiter stays well formed and keeps its
/// target and the directories above it.
pub proof fn lemma_step_keeps_well_formed(s: WaiterState, reply: ReplyView)
    requires
        well_formed(s),
    ensures
        well_formed(stepped(s, reply).0),
        stepped(s, reply).0.target == s.target,
        stepped(s, reply).0.ancestors == s.ancestors,
{
    let next = stepped(s, reply).0;
    match s.phase {
        WaitPhase::Arming(k) => {
            match (planned_request(s.target, s.ancestors, k as int), reply) {
                (Some(request), ReplyView::Armed(handle)) => {
                    lemma_inserted_keeps_distinct(s.watches, handle, request.path);
                    lemma_position(s.watches, handle);
                    assert(request.path == s.target || s.ancestors.contains(request.path)) by {
                        if k > 0 {
                            assert(s.ancestors[k - 1] == request.path);
                        }
                    }
                    assert forall|i: int| 0 <= i < next.watches.len() implies (
                    #[trigger] next.watches[i]).1 == next.target || next.ancestors.contains(
                        next.watches[i].1,
                    ) by {
                        if i < s.watches.len() && next.watches[i] == s.watches[i] {
                            assert(s.watches[i].1 == s.target || s.ancestors.contains(
                                s.watches[i].1,
                            ));
                        }
                    }
                },
                _ => {},
            }
        },
        WaitPhase::Releasing => {
            if s.watches.len() > 0 {
                let rest = s.watches.drop_last();
                assert(forall|i: int| 0 <= i < rest.len() ==> rest[i] == s.watches[i]);
                assert(distinct_handles(rest));
                assert forall|i: int| 0 <= i < rest.len() implies (#[trigger] rest[i]).1
                    == s.target || s.ancestors.contains(rest[i].1) by {
                    assert(s.watches[i].1 == s.target || s.ancestors.contains(s.watches[i].1));
                }
            }
        },
        _ => {},
    }
}

/// Whatever the driver answers, and however often, the waiter stays well
/// formed.
pub proof fn lemma_run_keeps_well_formed(s: WaiterState, replies: Seq<ReplyView>)
    requires
        well_formed(s),
    ensures
        well_formed(run(s, replies)),
        run(s, replies).target == s.target,
        run(s, replies).ancestors == s.ancestors,
    decreases replies.len(),
{
    if replies.len() > 0 {
        lemma_run_keeps_well_formed(s, replies.drop_last());
        lemma_step_keeps_well_formed(run(s, replies.drop_last()), replies.last());
    }
}

/// A wait that is over holds no watch: each way out, good or bad, has
/// removed them all. And a request is pending exactly while a wait is under
/// way.
pub proof fn lemma_no_watch_outlives_its_wait(s: WaiterState, reply: ReplyView)
    requires
        well_formed(s),
    ensures
        stepped(s, reply).1 is Some ==> stepped(s, reply).0.phase is Idle,
        stepped(s, reply).0.phase is Idle ==> stepped(s, reply).0.watches.len() == 0,
        pending(s) is None <==> s.phase is Idle,
{
}

/// While events are awaited, the wait holds at most one watch for each path
/// that it watches: the target and the directories above it.
pub proof fn lemma_waits_within_bounds(s: WaiterState)
    requires
        well_formed(s),
        pending(s) == Some(RequestView::AwaitEvents),
    ensures
        s.phase is Waiting,
        s.watches.len() <= 1 + s.ancestors.len(),
{
}

/// The replies that report these handles as registered, in this order.
pub open spec fn armed_replies(handles: Seq<WatchHandle>) -> Seq<ReplyView> {
    handles.map_values(|h: WatchHandle| ReplyView::Armed(h))
}

/// The watches that stand after the first `count` registrations succeeded
/// with these handles.
pub open spec fn armed_watches(
    target: Seq<char>,
    ancestors: Seq<Seq<char>>,
    handles: Seq<WatchHandle>,
    count: int,
) -> Watches {
    Seq::new(
        count as nat,
        |i: int| (handles[i], planned_request(target, ancestors, i)->0.path),
    )
}

/// Where the source hands out a handle of its own for each registration, the
/// wait comes to watch every path: after registration `count` the watches
/// are those handles with the target and the directories above it, in order,
/// and after the last one, `1 + ancestors.len()` watches stand and events are
/// awaited.
pub proof fn lemma_distinct_handles_arm_every_path(
    s: WaiterState,
    handles: Seq<WatchHandle>,
    count: int,
)
    requires
        well_formed(s),
        s.phase == WaitPhase::Arming(0),
        handles.no_duplicates(),
        0 <= count <= handles.len() <= s.ancestors.len() + 1,
    ensures
        run(s, armed_replies(handles.take(count))).watches == armed_watches(
            s.target,
            s.ancestors,
            handles,
            count,
        ),
        run(s, armed_replies(handles.take(count))).phase == (if count <= s.ancestors.len() {
            WaitPhase::Arming(count as usize)
        } else {
            WaitPhase::Waiting
        }),
        count == s.ancestors.len() + 1 ==> pending(run(s, armed_replies(handles.take(count))))
            == Some(RequestView::AwaitEvents),
        forall|i: int|
            0 <= i < count ==> lookup(
                run(s, armed_replies(handles.take(count))).watches,
                #[trigger] handles[i],
            ) == Some(planned_request(s.target, s.ancestors, i)->0.path),
    decreases count,
{
    let replies = armed_replies(handles.take(count));
    let after = run(s, replies);
    let expected = armed_watches(s.target, s.ancestors, handles, count);
    lemma_run_keeps_well_formed(s, replies);
    if count == 0 {
        assert(replies.len() == 0);
        assert(after.watches =~= expected);
    } else {
        let before_replies = armed_replies(handles.take(count - 1));
        let before = run(s, before_replies);
        lemma_distinct_handles_arm_every_path(s, handles, count - 1);
        lemma_run_keeps_well_formed(s, before_replies);
        assert(replies.drop_last() =~= before_replies);
        assert(replies.last() == ReplyView::Armed(handles[count - 1]));
        assert(after == stepped(before, replies.last()).0);
        let k = (count - 1) as usize;
        assert(before.phase == WaitPhase::Arming(k));
        let request = planned_request(s.target, s.ancestors, count - 1)->0;
        let handle = handles[count - 1];
        assert(position(before.watches, handle) is None) by {
            lemma_position(before.watches, handle);
            if position(before.watches, handle) is Some {
                let i = position(before.watches, handle)->0;
                assert(before.watches[i].0 == handles[i]);
                assert(handles[i] == handles[count - 1]);
            }
        }
        assert(after.watches == before.watches.push((handle, request.path)));
        assert(after.watches =~= expected);
        assert forall|i: int| 0 <= i < count implies lookup(after.watches, #[trigger] handles[i])
            == Some(planned_request(s.target, s.ancestors, i)->0.path) by {
            lemma_lookup_inserted(before.watches, handle, request.path, handles[i]);
        }
    }
}

/// Each reply tells how a removal went: well or badly.
pub open spec fn removal_replies(replies: Seq<ReplyView>) -> bool {
    forall|i: int|
        0 <= i < replies.len() ==> (#[trigger] replies[i]) is Done || replies[i] is Failed
}

/// Each reply tells of a removal that went well.
pub open spec fn all_done(replies: Seq<ReplyView>) -> bool {
    forall|i: int| 0 <= i < replies.len() ==> (#[trigger] replies[i]) is Done
}

/// Every watch is removed once, the last registered first, whether or not
/// the removals before it succeeded; after the last one the source is closed.
/// A failure that was known before stays the one to report, and none is added
/// where every removal went well.
pub proof fn lemma_release_tries_every_watch(
    s: WaiterState,
    replies: Seq<ReplyView>,
    count: int,
)
    requires
        s.phase is Releasing,
        removal_replies(replies),
        0 <= count <= replies.len() <= s.watches.len(),
    ensures
        run(s, replies.take(count)).phase is Releasing,
        run(s, replies.take(count)).watches == s.watches.take(s.watches.len() - count),
        count < s.watches.len() ==> pending(run(s, replies.take(count))) == Some(
            RequestView::Release(s.watches[s.watches.len() - 1 - count].0),
        ),
        count == s.watches.len() ==> pending(run(s, replies.take(count))) == Some(
            RequestView::CloseSource,
        ),
        s.failure is Some || all_done(replies) ==> run(s, replies.take(count)).failure
            == s.failure,
    decreases count,
{
    let after = run(s, replies.take(count));
    if count == 0 {
        assert(replies.take(0).len() == 0);
        assert(after.watches =~= s.watches.take(s.watches.len() as int));
    } else {
        lemma_release_tries_every_watch(s, replies, count - 1);
        let before = run(s, replies.take(count - 1));
        assert(replies.take(count).drop_last() =~= replies.take(count - 1));
        assert(replies.take(count).last() == replies[count - 1]);
        assert(after == stepped(before, replies[count - 1]).0);
        assert(before.watches.len() > 0);
        assert(before.watches.drop_last() =~= s.watches.take(s.watches.len() - count));
    }
}

/// A relevant event ends the wait well: every watch is removed, the source
/// is closed, and the wait is over without a failure.
pub proof fn lemma_relevant_event_ends_wait(
    s: WaiterState,
    events: Seq<RawEventView>,
    removals: Seq<ReplyView>,
)
    requires
        s.phase is Waiting,
        batch_verdict(events, s.watches, s.target, s.ancestors) == Ok::<bool, UnexpectedWatch>(
            true,
        ),
        removals.len() == s.watches.len(),
        all_done(removals),
    ensures
        ({
            let found = stepped(s, ReplyView::Events(events)).0;
            let released = run(found, removals);
            &&& found.phase is Releasing
            &&& found.watches == s.watches
            &&& pending(released) == Some(RequestView::CloseSource)
            &&& stepped(released, ReplyView::Done).1 == Some(Ok::<(), WaitErrorView>(()))
            &&& stepped(released, ReplyView::Done).0.phase is Idle
            &&& stepped(released, ReplyView::Done).0.watches.len() == 0
        }),
{
    let found = stepped(s, ReplyView::Events(events)).0;
    lemma_release_tries_every_watch(found, removals, removals.len() as int);
    assert(removals.take(removals.len() as int) =~= removals);
}

/// An event of an unknown watch, met before any relevant one, fails the
/// wait: every watch is removed, however the removals go, the source is
/// closed, and the wait is over with that watch's handle as its failure.
pub proof fn lemma_unknown_watch_fails_wait(
    s: WaiterState,
    events: Seq<RawEventView>,
    handle: WatchHandle,
    removals: Seq<ReplyView>,
)
    requires
        s.phase is Waiting,
        batch_verdict(events, s.watches, s.target, s.ancestors) == Err::<bool, UnexpectedWatch>(
            UnexpectedWatch { handle },
        ),
        removals.len() == s.watches.len(),
        removal_replies(removals),
    ensures
        ({
            let found = stepped(s, ReplyView::Events(events)).0;
            let released = run(found, removals);
            &&& found.phase is Releasing
            &&& pending(released) == Some(RequestView::CloseSource)
            &&& stepped(released, ReplyView::Done).1 == Some(
                Err::<(), WaitErrorView>(WaitErrorView::UnexpectedWatch(handle)),
            )
            &&& stepped(released, ReplyView::Done).0.watches.len() == 0
        }),
{
    let found = stepped(s, ReplyView::Events(events)).0;
    lemma_release_tries_every_watch(found, removals, removals.len() as int);
    assert(removals.take(removals.len() as int) =~= removals);
}

/// A wait that removes its watches ends as its first failure says, and well
/// where there was none: a failed removal is reported, but never in place of
/// the failure that came before it.
pub proof fn lemma_release_reports_first_failure(s: WaiterState, reply: ReplyView)
    requires
        s.phase is Releasing,
    ensures
        s.watches.len() > 0 && reply is Failed ==> stepped(s, reply).0.failure == (
        match s.failure {
            Some(e) => Some(e),
            None => Some(WaitErrorView::Release(reply->Failed_0)),
        }),
        s.watches.len() > 0 && reply is Done ==> stepped(s, reply).0.failure == s.failure,
        s.watches.len() == 0 && reply is Done ==> stepped(s, reply).1 == Some(
            match s.failure {
                Some(e) => Err::<(), WaitErrorView>(e),
                None => Ok::<(), WaitErrorView>(()),
            },
        ),
{
}

} // verus!
