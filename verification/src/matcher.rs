//! Which events mean that the target may have changed.

use vstd::prelude::*;
use crate::paths::{joined, matches_path, path_join, same_path};
use crate::protocol::{RawEvent, RawEventView, WatchHandle, event_views, text_view};
use crate::watch_set::{WatchSet, Watches, lookup};

verus! {

/// An event named a watch that the current wait did not register.
#[derive(Clone, Copy, Debug, PartialEq, Eq, Structural)]
pub struct UnexpectedWatch {
    pub handle: WatchHandle,
}

/// The path that an event is about: the named entry of the watched directory,
/// or, without a name, the watched path itself.
pub open spec fn effective_path(watched: Seq<char>, name: Option<Seq<char>>) -> Seq<char> {
    match name {
        Some(n) => joined(watched, n),
        None => watched,
    }
}

/// A change of `changed` matters: it is the target or a directory above it.
pub open spec fn is_relevant(
    changed: Seq<char>,
    target: Seq<char>,
    ancestors: Seq<Seq<char>>,
) -> bool {
    matches_path(target, changed) || exists|i: int|
        0 <= i < ancestors.len() && matches_path(#[trigger] ancestors[i], changed)
}

/// What one event says: an error where its watch is unknown, else whether
/// the path it is about matters.
pub open spec fn event_verdict(
    event: RawEventView,
    watches: Watches,
    target: Seq<char>,
    ancestors: Seq<Seq<char>>,
) -> Result<bool, UnexpectedWatch> {
    match lookup(watches, event.handle) {
        Some(watched) => Ok(is_relevant(effective_path(watched, event.name), target, ancestors)),
        None => Err(UnexpectedWatch { handle: event.handle }),
    }
}

/// What a batch says: the verdict of its first event that is not merely
/// irrelevant, and `Ok(false)` where every event is irrelevant.
pub open spec fn batch_verdict(
    events: Seq<RawEventView>,
    watches: Watches,
    target: Seq<char>,
    ancestors: Seq<Seq<char>>,
) -> Result<bool, UnexpectedWatch>
    decreases events.len(),
{
    if events.len() == 0 {
        Ok(false)
    } else {
        match event_verdict(events.first(), watches, target, ancestors) {
            Ok(false) => batch_verdict(events.drop_first(), watches, target, ancestors),
            verdict => verdict,
        }
    }
}

/// Event `i` decides the batch: it is relevant or names an unknown watch, and
/// every event before it is known and irrelevant.
pub open spec fn decides(
    events: Seq<RawEventView>,
    watches: Watches,
    target: Seq<char>,
    ancestors: Seq<Seq<char>>,
    i: int,
) -> bool {
    &&& 0 <= i < events.len()
    &&& event_verdict(events[i], watches, target, ancestors) != Ok::<bool, UnexpectedWatch>(false)
    &&& forall|j: int|
        0 <= j < i ==> event_verdict(#[trigger] events[j], watches, target, ancestors) == Ok::<
            bool,
            UnexpectedWatch,
        >(false)
}

/// An event that names an unknown watch is an error, and only such an event is.
pub proof fn lemma_unknown_watch_is_error(
    event: RawEventView,
    watches: Watches,
    target: Seq<char>,
    ancestors: Seq<Seq<char>>,
)
    ensures
        lookup(watches, event.handle) is None <==> event_verdict(
            event,
            watches,
            target,
            ancestors,
        ) is Err,
        lookup(watches, event.handle) is None ==> event_verdict(event, watches, target, ancestors)
            == Err::<bool, UnexpectedWatch>(UnexpectedWatch { handle: event.handle }),
{
}

/// An event without a name on the watch of the target, or on the watch of a
/// directory above it, is relevant.
pub proof fn lemma_event_on_watched_path_is_relevant(
    event: RawEventView,
    watches: Watches,
    target: Seq<char>,
    ancestors: Seq<Seq<char>>,
)
    requires
        event.name is None,
        lookup(watches, event.handle) is Some,
        lookup(watches, event.handle)->0 == target || ancestors.contains(
            lookup(watches, event.handle)->0,
        ),
    ensures
        event_verdict(event, watches, target, ancestors) == Ok::<bool, UnexpectedWatch>(true),
{
    let watched = lookup(watches, event.handle)->0;
    if watched != target {
        let i = choose|i: int| 0 <= i < ancestors.len() && ancestors[i] == watched;
        assert(matches_path(ancestors[i], watched));
    }
}

/// The batch's verdict is that of the event that decides it.
pub proof fn lemma_batch_decided(
    events: Seq<RawEventView>,
    watches: Watches,
    target: Seq<char>,
    ancestors: Seq<Seq<char>>,
    i: int,
)
    requires
        decides(events, watches, target, ancestors, i),
    ensures
        batch_verdict(events, watches, target, ancestors) == event_verdict(
            events[i],
            watches,
            target,
            ancestors,
        ),
    decreases i,
{
    if i > 0 {
        let rest = events.drop_first();
        assert(event_verdict(events[0], watches, target, ancestors) == Ok::<
            bool,
            UnexpectedWatch,
        >(false));
        assert(forall|j: int| 0 <= j < rest.len() ==> rest[j] == events[j + 1]);
        assert(decides(rest, watches, target, ancestors, i - 1)) by {
            assert forall|j: int| 0 <= j < i - 1 implies event_verdict(
                #[trigger] rest[j],
                watches,
                target,
                ancestors,
            ) == Ok::<bool, UnexpectedWatch>(false) by {
                assert(rest[j] == events[j + 1]);
            }
        }
        lemma_batch_decided(rest, watches, target, ancestors, i - 1);
    }
}

/// A batch is irrelevant exactly where each of its events is known and
/// irrelevant.
pub proof fn lemma_batch_irrelevant(
    events: Seq<RawEventView>,
    watches: Watches,
    target: Seq<char>,
    ancestors: Seq<Seq<char>>,
)
    ensures
        batch_verdict(events, watches, target, ancestors) == Ok::<bool, UnexpectedWatch>(false)
            <==> forall|j: int|
            0 <= j < events.len() ==> event_verdict(
                #[trigger] events[j],
                watches,
                target,
                ancestors,
            ) == Ok::<bool, UnexpectedWatch>(false),
    decreases events.len(),
{
    if events.len() > 0 {
        let rest = events.drop_first();
        lemma_batch_irrelevant(rest, watches, target, ancestors);
        assert(forall|j: int| 0 <= j < rest.len() ==> rest[j] == events[j + 1]);
        if batch_verdict(events, watches, target, ancestors) == Ok::<bool, UnexpectedWatch>(
            false,
        ) {
            assert forall|j: int| 0 <= j < events.len() implies event_verdict(
                #[trigger] events[j],
                watches,
                target,
                ancestors,
            ) == Ok::<bool, UnexpectedWatch>(false) by {
                if j > 0 {
                    assert(events[j] == rest[j - 1]);
                }
            }
        }
        if forall|j: int|
            0 <= j < events.len() ==> event_verdict(
                #[trigger] events[j],
                watches,
                target,
                ancestors,
            ) == Ok::<bool, UnexpectedWatch>(false) {
            assert(event_verdict(events[0], watches, target, ancestors) == Ok::<
                bool,
                UnexpectedWatch,
            >(false));
            assert forall|j: int| 0 <= j < rest.len() implies event_verdict(
                #[trigger] rest[j],
                watches,
                target,
                ancestors,
            ) == Ok::<bool, UnexpectedWatch>(false) by {
                assert(rest[j] == events[j + 1]);
            }
        }
    }
}

/// The path that an event on `watched` with this `name` is about.
pub fn changed_path(watched: &str, name: &Option<String>) -> (changed: String)
    ensures
        changed@ == effective_path(watched@, text_view(*name)),
{
    match name {
        Some(n) => path_join(watched, n.as_str()),
        None => watched.to_owned(),
    }
}

/// Whether a change of `changed` matters to the monitor of `target`.
pub fn is_relevant_path(changed: &str, target: &str, ancestors: &Vec<String>) -> (relevant: bool)
    ensures
        relevant == is_relevant(changed@, target@, ancestors.deep_view()),
{
    if same_path(target, changed) {
        return true;
    }
    let mut i: usize = 0;
    while i < ancestors.len()
        invariant
            i <= ancestors.len(),
            !matches_path(target@, changed@),
            forall|j: int|
                0 <= j < i ==> !matches_path(#[trigger] ancestors.deep_view()[j], changed@),
        decreases ancestors.len() - i,
    {
        assert(ancestors.deep_view()[i as int] == ancestors[i as int]@);
        if same_path(ancestors[i].as_str(), changed) {
            return true;
        }
        i = i + 1;
    }
    false
}

/// Judges one event against the watches of the current wait.
///
/// An event whose handle is not among the watches is an error; it is never
/// passed over and never taken for an event of another path.
pub fn match_event(
    event: &RawEvent,
    watches: &WatchSet,
    target: &str,
    ancestors: &Vec<String>,
) -> (verdict: Result<bool, UnexpectedWatch>)
    ensures
        verdict == event_verdict(event@, watches@, target@, ancestors.deep_view()),
        verdict is Err <==> lookup(watches@, event.handle) is None,
{
    match watches.get(event.handle) {
        Some(watched) => {
            let changed = changed_path(watched.as_str(), &event.name);
            Ok(is_relevant_path(changed.as_str(), target, ancestors))
        },
        None => Err(UnexpectedWatch { handle: event.handle }),
    }
}

/// Judges the events of one wake in the order they came, up to the first one
/// that is relevant or names an unknown watch.
pub fn scan_batch(
    events: &Vec<RawEvent>,
    watches: &WatchSet,
    target: &str,
    ancestors: &Vec<String>,
) -> (verdict: Result<bool, UnexpectedWatch>)
    ensures
        verdict == batch_verdict(event_views(events@), watches@, target@, ancestors.deep_view()),
{
    let ghost all = event_views(events@);
    let mut i: usize = 0;
    assert(all.skip(0) =~= all);
    while i < events.len()
        invariant
            i <= events.len(),
            all == event_views(events@),
            batch_verdict(all, watches@, target@, ancestors.deep_view()) == batch_verdict(
                all.skip(i as int),
                watches@,
                target@,
                ancestors.deep_view(),
            ),
        decreases events.len() - i,
    {
        let ghost rest = all.skip(i as int);
        assert(rest.first() == events[i as int]@);
        assert(rest.drop_first() =~= all.skip(i + 1));
        match match_event(&events[i], watches, target, ancestors) {
            Ok(false) => {},
            verdict => {
                return verdict;
            },
        }
        i = i + 1;
    }
    assert(all.skip(i as int).len() == 0);
    Ok(false)
}

} // verus!
