//! What holds of the monitor across its cycles, whatever the driver answers:
//! a line is put out only for content whose text form differs from the one
//! emitted last, an absent target is met in silence, and between two waits
//! no watch is left.

use vstd::prelude::*;
use crate::encoding::{base64_text, encodable};
use crate::lifecycle::{
    all_done,
    lemma_idle_is_well_formed,
    lemma_release_tries_every_watch,
    lemma_started_is_well_formed,
    lemma_step_keeps_well_formed,
    run,
    well_formed,
};
use crate::matcher::{UnexpectedWatch, batch_verdict};
use crate::paths::ancestor_chain;
use crate::poller::{
    PollerState,
    initial_state,
    line_for,
    poll_line,
    poll_next,
    poll_output,
    poll_pending,
    read_result,
    reads,
    sleeps,
    waits,
};
use crate::protocol::{BACKOFF_SECONDS, DiagnosticView, RawEventView, ReplyView, RequestView};
use crate::waiter::{pending, stepped};

verus! {

/// The state that the monitor reaches from `s` when the driver gives
/// `replies`, one after the other.
pub open spec fn poll_run(s: PollerState, replies: Seq<ReplyView>) -> PollerState
    decreases replies.len(),
{
    if replies.len() == 0 {
        s
    } else {
        poll_next(poll_run(s, replies.drop_last()), replies.last())
    }
}

/// A monitor starts out with a well-formed waiter.
pub proof fn lemma_initial_is_well_formed(target: Seq<char>)
    requires
        ancestor_chain(target).len() <= usize::MAX,
    ensures
        well_formed(initial_state(target).waiter),
        reads(initial_state(target)),
        poll_pending(initial_state(target)) == RequestView::ReadTarget,
{
    lemma_idle_is_well_formed(target, ancestor_chain(target));
}

/// Whatever the driver answers, the monitor's waiter stays well formed and
/// the monitor keeps its target and the directories above it.
pub proof fn lemma_poll_step_keeps_well_formed(s: PollerState, reply: ReplyView)
    requires
        well_formed(s.waiter),
    ensures
        well_formed(poll_next(s, reply).waiter),
        poll_next(s, reply).waiter.target == s.waiter.target,
        poll_next(s, reply).waiter.ancestors == s.waiter.ancestors,
{
    lemma_step_keeps_well_formed(s.waiter, reply);
    lemma_started_is_well_formed(s.waiter);
}

/// Whatever the driver answers, and however often, the monitor's waiter
/// stays well formed.
pub proof fn lemma_poll_run_keeps_well_formed(s: PollerState, replies: Seq<ReplyView>)
    requires
        well_formed(s.waiter),
    ensures
        well_formed(poll_run(s, replies).waiter),
        poll_run(s, replies).waiter.target == s.waiter.target,
        poll_run(s, replies).waiter.ancestors == s.waiter.ancestors,
    decreases replies.len(),
{
    if replies.len() > 0 {
        lemma_poll_run_keeps_well_formed(s, replies.drop_last());
        lemma_poll_step_keeps_well_formed(poll_run(s, replies.drop_last()), replies.last());
    }
}

/// Watches never pile up. After any number of cycles the monitor holds at
/// most one watch for the target and one for each directory above it, and it
/// holds none while it reads the target or rests.
pub proof fn lemma_watches_never_pile_up(target: Seq<char>, replies: Seq<ReplyView>)
    requires
        ancestor_chain(target).len() <= usize::MAX,
    ensures
        ({
            let s = poll_run(initial_state(target), replies);
            &&& s.waiter.watches.len() <= 1 + ancestor_chain(target).len()
            &&& reads(s) || sleeps(s) ==> s.waiter.watches.len() == 0
            &&& poll_pending(s) is ReadTarget ==> s.waiter.watches.len() == 0
            &&& poll_pending(s) is Sleep ==> s.waiter.watches.len() == 0
            &&& poll_pending(s) is AwaitEvents ==> s.waiter.phase is Waiting
        }),
{
    lemma_initial_is_well_formed(target);
    lemma_poll_run_keeps_well_formed(initial_state(target), replies);
}

/// A line is put out only by a read, only where the text form of what was
/// read differs from the text emitted last, and it is that text form, which
/// from then on is the text emitted last. A step that puts out no line
/// leaves the text emitted last as it was.
pub proof fn lemma_line_is_changed_snapshot(s: PollerState, reply: ReplyView)
    ensures
        match poll_line(s, reply) {
            Some(line) => {
                &&& reads(s)
                &&& read_result(reply) is Some
                &&& line == read_result(reply)->0.snapshot
                &&& line != s.last_emitted
                &&& poll_next(s, reply).last_emitted == line
            },
            None => poll_next(s, reply).last_emitted == s.last_emitted,
        },
        reads(s) && read_result(reply) is Some && poll_line(s, reply) is None ==> read_result(
            reply,
        )->0.snapshot == s.last_emitted,
{
}

/// While the monitor does not read, the text emitted last stays as it is and
/// no line is put out.
pub proof fn lemma_quiet_between_reads(s: PollerState, between: Seq<ReplyView>)
    requires
        forall|k: int| 0 <= k < between.len() ==> !reads(#[trigger] poll_run(s, between.take(k))),
    ensures
        poll_run(s, between).last_emitted == s.last_emitted,
        forall|k: int|
            0 <= k < between.len() ==> poll_line(
                #[trigger] poll_run(s, between.take(k)),
                between[k],
            ) is None,
    decreases between.len(),
{
    if between.len() > 0 {
        let shorter = between.drop_last();
        assert forall|k: int| 0 <= k < shorter.len() implies !reads(
            #[trigger] poll_run(s, shorter.take(k)),
        ) by {
            assert(shorter.take(k) =~= between.take(k));
        }
        lemma_quiet_between_reads(s, shorter);
        assert(between.take(between.len() - 1) =~= shorter);
        assert(!reads(poll_run(s, between.take(between.len() - 1))));
    }
}

/// Content that has not changed is not emitted again: when two reads that
/// follow each other find the same, the second puts out no line, whatever
/// happened in the wait or the rest between them.
pub proof fn lemma_unchanged_content_is_emitted_once(
    s: PollerState,
    read: ReplyView,
    between: Seq<ReplyView>,
)
    requires
        reads(s),
        read_result(read) is Some,
        forall|k: int|
            0 <= k < between.len() ==> !reads(
                #[trigger] poll_run(poll_next(s, read), between.take(k)),
            ),
        reads(poll_run(poll_next(s, read), between)),
    ensures
        poll_line(poll_run(poll_next(s, read), between), read) is None,
        poll_output(poll_run(poll_next(s, read), between), read).line is None,
{
    lemma_quiet_between_reads(poll_next(s, read), between);
}

/// For as long as its wait does not end, the monitor moves as its waiter
/// does, and neither the text emitted last nor what follows the wait changes.
pub proof fn lemma_monitor_follows_its_wait(s: PollerState, replies: Seq<ReplyView>)
    requires
        forall|k: int|
            0 <= k < replies.len() ==> pending(#[trigger] run(s.waiter, replies.take(k))) is Some
                && stepped(run(s.waiter, replies.take(k)), replies[k]).1 is None,
    ensures
        poll_run(s, replies).waiter == run(s.waiter, replies),
        poll_run(s, replies).last_emitted == s.last_emitted,
        poll_run(s, replies).rest == s.rest,
    decreases replies.len(),
{
    if replies.len() > 0 {
        let shorter = replies.drop_last();
        assert forall|k: int| 0 <= k < shorter.len() implies pending(
            #[trigger] run(s.waiter, shorter.take(k)),
        ) is Some && stepped(run(s.waiter, shorter.take(k)), shorter[k]).1 is None by {
            assert(shorter.take(k) =~= replies.take(k));
        }
        lemma_monitor_follows_its_wait(s, shorter);
        assert(replies.take(replies.len() - 1) =~= shorter);
        assert(pending(run(s.waiter, replies.take(replies.len() - 1))) is Some);
    }
}

/// A change is emitted within one cycle. When a relevant event arrives
/// while the monitor waits, and the watches are removed without failure, the
/// wait ends without a line or a diagnostic, the target is read next, and
/// content whose text form differs from the text emitted last is then put
/// out as one line.
pub proof fn lemma_change_is_emitted_within_one_cycle(
    s: PollerState,
    events: Seq<RawEventView>,
    removals: Seq<ReplyView>,
    bytes: Seq<u8>,
)
    requires
        well_formed(s.waiter),
        s.waiter.phase is Waiting,
        batch_verdict(events, s.waiter.watches, s.waiter.target, s.waiter.ancestors) == Ok::<
            bool,
            UnexpectedWatch,
        >(true),
        removals.len() == s.waiter.watches.len(),
        all_done(removals),
        encodable(bytes.len()),
        base64_text(bytes) != s.last_emitted,
    ensures
        ({
            let found = poll_next(s, ReplyView::Events(events));
            let released = poll_run(found, removals);
            let reading = poll_next(released, ReplyView::Done);
            &&& poll_output(s, ReplyView::Events(events)).line is None
            &&& forall|k: int|
                0 <= k < removals.len() ==> poll_line(
                    #[trigger] poll_run(found, removals.take(k)),
                    removals[k],
                ) is None
            &&& poll_output(released, ReplyView::Done).line is None
            &&& poll_output(released, ReplyView::Done).diagnostic is None
            &&& poll_output(released, ReplyView::Done).request == RequestView::ReadTarget
            &&& reads(reading)
            &&& reading.waiter.watches.len() == 0
            &&& reading.last_emitted == s.last_emitted
            &&& poll_output(reading, ReplyView::Content(bytes)).line == Some(base64_text(bytes))
        }),
{
    let found = poll_next(s, ReplyView::Events(events));
    let released = poll_run(found, removals);
    assert(found.waiter == stepped(s.waiter, ReplyView::Events(events)).0);
    assert(found.waiter.phase is Releasing);
    assert forall|k: int| 0 <= k < removals.len() implies pending(
        #[trigger] run(found.waiter, removals.take(k)),
    ) is Some && stepped(run(found.waiter, removals.take(k)), removals[k]).1 is None by {
        lemma_release_tries_every_watch(found.waiter, removals, k);
    }
    lemma_monitor_follows_its_wait(found, removals);
    assert forall|k: int| 0 <= k < removals.len() implies poll_line(
        #[trigger] poll_run(found, removals.take(k)),
        removals[k],
    ) is None by {
        let upto = removals.take(k);
        assert forall|j: int| 0 <= j < upto.len() implies pending(
            #[trigger] run(found.waiter, upto.take(j)),
        ) is Some && stepped(run(found.waiter, upto.take(j)), upto[j]).1 is None by {
            assert(upto.take(j) =~= removals.take(j));
            lemma_release_tries_every_watch(found.waiter, removals, j);
        }
        lemma_monitor_follows_its_wait(found, upto);
        lemma_release_tries_every_watch(found.waiter, removals, k);
    }
    lemma_release_tries_every_watch(found.waiter, removals, removals.len() as int);
    assert(removals.take(removals.len() as int) =~= removals);
}

/// Content whose text form differs from the text emitted last is put out as
/// one line, and a wait for the next change begins.
pub proof fn lemma_changed_content_is_emitted(s: PollerState, bytes: Seq<u8>)
    requires
        reads(s),
        s.waiter.phase is Idle,
        encodable(bytes.len()),
        base64_text(bytes) != s.last_emitted,
    ensures
        poll_output(s, ReplyView::Content(bytes)).line == Some(base64_text(bytes)),
        poll_output(s, ReplyView::Content(bytes)).diagnostic is None,
        poll_output(s, ReplyView::Content(bytes)).request == RequestView::OpenSource,
        poll_next(s, ReplyView::Content(bytes)).last_emitted == base64_text(bytes),
{
}

/// An absent target is met in silence: no diagnostic, no wait, a rest of
/// [`BACKOFF_SECONDS`]. The empty text counts as what was read, so no line is
/// put out where nothing, or an empty text, was emitted before.
pub proof fn lemma_absent_target_is_silent(s: PollerState)
    requires
        reads(s),
    ensures
        poll_output(s, ReplyView::NotFound).diagnostic is None,
        poll_output(s, ReplyView::NotFound).request == RequestView::Sleep(BACKOFF_SECONDS),
        poll_output(s, ReplyView::NotFound).line == line_for(
            s.last_emitted,
            Seq::<char>::empty(),
        ),
        s.last_emitted.len() == 0 ==> poll_output(s, ReplyView::NotFound).line is None,
        poll_next(s, ReplyView::NotFound).waiter == s.waiter,
        sleeps(poll_next(s, ReplyView::NotFound)),
{
    assert(s.last_emitted.len() == 0 ==> s.last_emitted =~= Seq::<char>::empty());
}

/// A read that fails for another reason takes the same way as an absent
/// target, and differs only in that the operator is told.
pub proof fn lemma_failed_read_is_reported(s: PollerState, detail: Seq<char>)
    requires
        reads(s),
    ensures
        poll_output(s, ReplyView::Failed(detail)).diagnostic == Some(
            DiagnosticView::ReadFailed(detail),
        ),
        poll_output(s, ReplyView::Failed(detail)).request == RequestView::Sleep(BACKOFF_SECONDS),
        poll_output(s, ReplyView::Failed(detail)).line == poll_output(s, ReplyView::NotFound).line,
        poll_next(s, ReplyView::Failed(detail)) == poll_next(s, ReplyView::NotFound),
{
}

/// A wait that ends well is followed by a read at once; one that ends badly
/// is reported and followed by a rest; and after the rest comes a read.
pub proof fn lemma_wait_end_decides_rest(s: PollerState, reply: ReplyView)
    requires
        well_formed(s.waiter),
    ensures
        waits(s) ==> match stepped(s.waiter, reply).1 {
            Some(Ok(_)) => poll_output(s, reply).request == RequestView::ReadTarget
                && poll_output(s, reply).diagnostic is None,
            Some(Err(e)) => poll_output(s, reply).request == RequestView::Sleep(BACKOFF_SECONDS)
                && poll_output(s, reply).diagnostic == Some(DiagnosticView::WaitFailed(e)),
            None => poll_output(s, reply).diagnostic is None,
        },
        sleeps(s) && reply is Done ==> poll_output(s, reply).request == RequestView::ReadTarget,
{
    lemma_step_keeps_well_formed(s.waiter, reply);
}

} // verus!
