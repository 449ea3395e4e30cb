//! The watches of one wait: which handle stands for which path.

use vstd::prelude::*;
use crate::protocol::WatchHandle;

verus! {

/// The watches of one wait as a mathematical value: handle and path, in the
/// order in which the handles were first registered.
pub type Watches = Seq<(WatchHandle, Seq<char>)>;

/// Where `handle` stands in `watches`, if it does.
pub open spec fn position(watches: Watches, handle: WatchHandle) -> Option<int>
    decreases watches.len(),
{
    if watches.len() == 0 {
        None
    } else if watches.last().0 == handle {
        Some(watches.len() - 1)
    } else {
        position(watches.drop_last(), handle)
    }
}

/// The path that `handle` was registered for, if it was registered.
pub open spec fn lookup(watches: Watches, handle: WatchHandle) -> Option<Seq<char>> {
    match position(watches, handle) {
        Some(i) => Some(watches[i].1),
        None => None,
    }
}

/// `watches` after `handle` was registered for `path`: a handle that is
/// already there keeps its place and takes the new path, a new one goes last.
pub open spec fn inserted(watches: Watches, handle: WatchHandle, path: Seq<char>) -> Watches {
    match position(watches, handle) {
        Some(i) => watches.update(i, (handle, path)),
        None => watches.push((handle, path)),
    }
}

/// No handle stands twice in `watches`.
pub open spec fn distinct_handles(watches: Watches) -> bool {
    forall|i: int, j: int|
        0 <= i < j < watches.len() ==> (#[trigger] watches[i]).0 != (#[trigger] watches[j]).0
}

/// `position` finds the last place at which the handle stands, and finds
/// nothing only where the handle stands nowhere.
pub proof fn lemma_position(watches: Watches, handle: WatchHandle)
    ensures
        match position(watches, handle) {
            Some(i) => 0 <= i < watches.len() && watches[i].0 == handle && forall|j: int|
                i < j < watches.len() ==> (#[trigger] watches[j]).0 != handle,
            None => forall|j: int| 0 <= j < watches.len() ==> (#[trigger] watches[j]).0 != handle,
        },
    decreases watches.len(),
{
    if watches.len() > 0 && watches.last().0 != handle {
        let rest = watches.drop_last();
        lemma_position(rest, handle);
        assert(forall|j: int| 0 <= j < rest.len() ==> rest[j] == watches[j]);
    }
}

/// A handle leads to the path it was last registered for, and registering one
/// handle leaves every other handle's path as it was.
pub proof fn lemma_lookup_inserted(
    watches: Watches,
    handle: WatchHandle,
    path: Seq<char>,
    other: WatchHandle,
)
    ensures
        lookup(inserted(watches, handle, path), handle) == Some(path),
        other != handle ==> lookup(inserted(watches, handle, path), other) == lookup(
            watches,
            other,
        ),
{
    let after = inserted(watches, handle, path);
    lemma_position(watches, handle);
    lemma_position(watches, other);
    lemma_position(after, handle);
    lemma_position(after, other);
    match position(watches, handle) {
        Some(i) => {
            assert(after[i] == (handle, path));
            assert(forall|j: int| 0 <= j < watches.len() && j != i ==> after[j] == watches[j]);
        },
        None => {
            assert(after.last() == (handle, path));
            assert(forall|j: int| 0 <= j < watches.len() ==> after[j] == watches[j]);
        },
    }
    if other != handle {
        match position(watches, other) {
            Some(k) => {
                assert(after[k] == watches[k]);
                assert(position(after, other) == Some(k)) by {
                    let found = position(after, other);
                    assert(found is Some);
                    let m = found->0;
                    if m < k {
                        assert(after[k].0 == other);
                    } else if m > k {
                        assert(m < watches.len());
                        assert(watches[m].0 != other);
                        assert(after[m] == watches[m]);
                    }
                }
            },
            None => {
                match position(after, other) {
                    Some(m) => {
                        if m < watches.len() {
                            assert(watches[m].0 != other);
                        }
                    },
                    None => {},
                }
            },
        }
    }
}

/// Registering a handle adds one watch where the handle is new and none where
/// it is not, and never makes a handle stand twice.
pub proof fn lemma_inserted_keeps_distinct(watches: Watches, handle: WatchHandle, path: Seq<char>)
    requires
        distinct_handles(watches),
    ensures
        distinct_handles(inserted(watches, handle, path)),
        inserted(watches, handle, path).len() == watches.len() + (if lookup(watches, handle)
            is None {
            1int
        } else {
            0int
        }),
{
    let after = inserted(watches, handle, path);
    lemma_position(watches, handle);
    assert forall|i: int, j: int| 0 <= i < j < after.len() implies (#[trigger] after[i]).0 != (
    #[trigger] after[j]).0 by {
        match position(watches, handle) {
            Some(k) => {
                assert(watches[k].0 == handle);
                assert(watches[i].0 != watches[j].0);
            },
            None => {
                if j < watches.len() {
                    assert(watches[i].0 != watches[j].0);
                } else {
                    assert(watches[i].0 != handle);
                }
            },
        }
    }
}

/// Handles with their paths as mathematical values.
pub open spec fn entry_views(entries: Seq<(WatchHandle, String)>) -> Watches {
    entries.map_values(|e: (WatchHandle, String)| (e.0, e.1@))
}

/// The watches registered during one wait. No handle is held twice.
#[derive(Debug)]
pub struct WatchSet {
    entries: Vec<(WatchHandle, String)>,
}

impl View for WatchSet {
    type V = Watches;

    closed spec fn view(&self) -> Watches {
        entry_views(self.entries@)
    }
}

impl WatchSet {
    /// No handle is held twice.
    #[verifier::type_invariant]
    spec fn single_handles(&self) -> bool {
        distinct_handles(self@)
    }

    /// A set without watches.
    pub fn new() -> (set: WatchSet)
        ensures
            set@ == Seq::<(WatchHandle, Seq<char>)>::empty(),
            distinct_handles(set@),
    {
        let entries: Vec<(WatchHandle, String)> = Vec::new();
        assert(entry_views(entries@) =~= Seq::<(WatchHandle, Seq<char>)>::empty());
        WatchSet { entries }
    }

    /// The number of watches. In every set, no handle is held twice.
    pub fn len(&self) -> (n: usize)
        ensures
            n == self@.len(),
            distinct_handles(self@),
    {
        proof {
            use_type_invariant(self);
        }
        self.entries.len()
    }

    fn find(&self, handle: WatchHandle) -> (found: Option<usize>)
        ensures
            match found {
                Some(i) => position(self@, handle) == Some(i as int) && i < self@.len(),
                None => position(self@, handle) is None,
            },
    {
        let mut i: usize = self.entries.len();
        assert(self@.take(i as int) =~= self@);
        while i > 0
            invariant
                i <= self.entries.len(),
                self@.len() == self.entries.len(),
                position(self@, handle) == position(self@.take(i as int), handle),
            decreases i,
        {
            let ghost head = self@.take(i as int);
            i = i - 1;
            assert(head.last() == self@[i as int]);
            assert(head.drop_last() =~= self@.take(i as int));
            if self.entries[i].0 == handle {
                return Some(i);
            }
        }
        None
    }

    /// The path that `handle` was registered for.
    pub fn get(&self, handle: WatchHandle) -> (path: Option<&String>)
        ensures
            match path {
                Some(p) => lookup(self@, handle) == Some(p@),
                None => lookup(self@, handle) is None,
            },
    {
        match self.find(handle) {
            Some(i) => Some(&self.entries[i].1),
            None => None,
        }
    }

    /// Records that `handle` now stands for `path`.
    pub fn insert(&mut self, handle: WatchHandle, path: String)
        ensures
            final(self)@ == inserted(old(self)@, handle, path@),
            distinct_handles(final(self)@),
    {
        proof {
            use_type_invariant(&*self);
            lemma_inserted_keeps_distinct(self@, handle, path@);
        }
        let found = self.find(handle);
        let mut entries: Vec<(WatchHandle, String)> = Vec::new();
        assert(entry_views(entries@) =~= Seq::<(WatchHandle, Seq<char>)>::empty());
        std::mem::swap(&mut self.entries, &mut entries);
        let ghost before = entries@;
        match found {
            Some(i) => {
                entries.set(i, (handle, path));
                assert(entry_views(entries@) =~= entry_views(before).update(
                    i as int,
                    (handle, path@),
                ));
            },
            None => {
                entries.push((handle, path));
                assert(entry_views(entries@) =~= entry_views(before).push((handle, path@)));
            },
        }
        self.entries = entries;
    }

    /// The handle that was registered last among those still held.
    pub fn last_handle(&self) -> (handle: Option<WatchHandle>)
        ensures
            handle == (if self@.len() > 0 {
                Some(self@.last().0)
            } else {
                None
            }),
    {
        let n: usize = self.entries.len();
        if n > 0 {
            Some(self.entries[n - 1].0)
        } else {
            None
        }
    }

    /// Forgets the watch that `last_handle` names.
    pub fn drop_last(&mut self)
        ensures
            final(self)@ == (if old(self)@.len() > 0 {
                old(self)@.drop_last()
            } else {
                old(self)@
            }),
            distinct_handles(final(self)@),
    {
        proof {
            use_type_invariant(&*self);
        }
        let mut entries: Vec<(WatchHandle, String)> = Vec::new();
        assert(entry_views(entries@) =~= Seq::<(WatchHandle, Seq<char>)>::empty());
        std::mem::swap(&mut self.entries, &mut entries);
        let ghost before = entry_views(entries@);
        let dropped = entries.pop();
        proof {
            let after = entry_views(entries@);
            if before.len() > 0 {
                assert(after =~= before.drop_last());
                assert(forall|i: int| 0 <= i < after.len() ==> after[i] == before[i]);
            } else {
                assert(after =~= before);
            }
        }
        self.entries = entries;
    }
}

} // verus!
