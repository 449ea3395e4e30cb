//! Paths as text, and the chain of directories above a path.
//!
//! A path is held as a `String`. What `std::path` computes on it is reached
//! through four small trusted functions; everything built on them is verified.

use vstd::prelude::*;

verus! {

/// What `std::path::Path::parent` returns for the path with this text.
pub uninterp spec fn parent_of(path: Seq<char>) -> Option<Seq<char>>;

/// What `std::path::Path::join` returns for the base and the path with these texts.
pub uninterp spec fn joined(base: Seq<char>, path: Seq<char>) -> Seq<char>;

/// What `==` on `std::path::Path` returns for the paths with these texts.
pub uninterp spec fn paths_equal(a: Seq<char>, b: Seq<char>) -> bool;

/// What `std::path::Path::is_absolute` returns for the path with this text.
pub uninterp spec fn absolute(path: Seq<char>) -> bool;

/// Calls `std::path::Path::parent`.
///
/// Trusted: the result is the path without its final component, named by
/// [`parent_of`], and it has fewer characters than the path itself.
#[verifier::external_body]
pub(crate) fn path_parent(path: &str) -> (parent: Option<String>)
    ensures
        match parent {
            Some(p) => parent_of(path@) == Some(p@) && p@.len() < path@.len(),
            None => parent_of(path@).is_none(),
        },
{
    match std::path::Path::new(path).parent() {
        Some(p) => Some(p.to_string_lossy().into_owned()),
        None => None,
    }
}

/// Calls `std::path::Path::join`.
///
/// Trusted: the result is the adjoined path, named by [`joined`].
#[verifier::external_body]
pub(crate) fn path_join(base: &str, path: &str) -> (whole: String)
    ensures
        whole@ == joined(base@, path@),
{
    std::path::Path::new(base).join(path).to_string_lossy().into_owned()
}

/// Two texts stand for one path: they are the same text, or `std::path::Path`
/// finds them equal.
pub open spec fn matches_path(a: Seq<char>, b: Seq<char>) -> bool {
    a == b || paths_equal(a, b)
}

/// Calls `==` on `std::path::Path`.
///
/// Trusted: the result is named by [`paths_equal`], and a path equals itself.
#[verifier::external_body]
pub(crate) fn same_path(a: &str, b: &str) -> (same: bool)
    ensures
        same == paths_equal(a@, b@),
        a@ == b@ ==> same,
{
    std::path::Path::new(a) == std::path::Path::new(b)
}

/// Calls `std::path::Path::is_absolute`.
///
/// Trusted: the result is named by [`absolute`].
#[verifier::external_body]
pub(crate) fn path_is_absolute(path: &str) -> (yes: bool)
    ensures
        yes == absolute(path@),
{
    std::path::Path::new(path).is_absolute()
}

/// The path reached from `path` by taking the parent `n` times, if every one
/// of those steps finds a parent.
pub open spec fn nth_parent(path: Seq<char>, n: nat) -> Option<Seq<char>>
    decreases n,
{
    if n == 0 {
        Some(path)
    } else {
        match nth_parent(path, (n - 1) as nat) {
            Some(p) => parent_of(p),
            None => None,
        }
    }
}

/// The directories above `path`: its parent first, then the parent of that
/// one, for as long as there is a parent and it is shorter than the path
/// below it, as every parent is that [`path_parent`] hands out.
pub open spec fn ancestor_chain(path: Seq<char>) -> Seq<Seq<char>>
    decreases path.len(),
{
    let parent = parent_of(path);
    if parent is Some && parent->0.len() < path.len() {
        seq![parent->0] + ancestor_chain(parent->0)
    } else {
        Seq::empty()
    }
}

/// The path whose parent comes next when `chain` has been collected above `path`.
pub open spec fn chain_tip(path: Seq<char>, chain: Seq<Seq<char>>) -> Seq<char> {
    if chain.len() == 0 {
        path
    } else {
        chain.last()
    }
}

/// The target's own path: `input` where it is absolute, else `input` adjoined
/// to the working directory.
pub open spec fn resolved(working_dir: Seq<char>, input: Seq<char>) -> Seq<char> {
    if absolute(input) {
        input
    } else {
        joined(working_dir, input)
    }
}

/// A path without a parent has no directory above it.
pub proof fn lemma_root_has_empty_chain(path: Seq<char>)
    requires
        parent_of(path) is None,
    ensures
        ancestor_chain(path) == Seq::<Seq<char>>::empty(),
{
}

/// Entry `i` of the chain is the path reached by taking the parent `i + 1`
/// times, so each entry is the parent of the one before it and the first is
/// the parent of `path`.
pub proof fn lemma_chain_follows_parents(path: Seq<char>, i: int)
    requires
        0 <= i < ancestor_chain(path).len(),
    ensures
        nth_parent(path, (i + 1) as nat) == Some(ancestor_chain(path)[i]),
        parent_of(chain_tip(path, ancestor_chain(path).take(i))) == Some(ancestor_chain(path)[i]),
    decreases i,
{
    let chain = ancestor_chain(path);
    let parent = parent_of(path)->0;
    assert(chain == seq![parent] + ancestor_chain(parent));
    if i == 0 {
        assert(nth_parent(path, 0) == Some(path));
        assert(chain.take(0).len() == 0);
    } else {
        lemma_nth_parent_shifts(path, i as nat);
        lemma_chain_follows_parents(parent, i - 1);
        assert(chain[i] == ancestor_chain(parent)[i - 1]);
        if i == 1 {
            assert(ancestor_chain(parent).take(0).len() == 0);
            assert(chain.take(1).last() == parent);
        } else {
            assert(chain.take(i).last() == ancestor_chain(parent).take(i - 1).last());
        }
    }
}

/// Taking the parent once and then `n` times is taking it `n + 1` times.
pub proof fn lemma_nth_parent_shifts(path: Seq<char>, n: nat)
    requires
        parent_of(path) is Some,
    ensures
        nth_parent(path, n + 1) == nth_parent(parent_of(path)->0, n),
    decreases n,
{
    if n == 0 {
        assert(nth_parent(path, 0) == Some(path));
        assert(nth_parent(path, 1) == parent_of(path));
    } else {
        lemma_nth_parent_shifts(path, (n - 1) as nat);
    }
}

/// The chain runs strictly upward: every entry is shorter than the path and
/// than every entry before it, so no directory occurs twice.
pub proof fn lemma_chain_shrinks(path: Seq<char>, i: int, j: int)
    requires
        0 <= i < j < ancestor_chain(path).len(),
    ensures
        ancestor_chain(path)[j].len() < ancestor_chain(path)[i].len() < path.len(),
    decreases j,
{
    let parent = parent_of(path)->0;
    assert(ancestor_chain(path) == seq![parent] + ancestor_chain(parent));
    if i == 0 {
        lemma_chain_entry_shorter(parent, j - 1);
    } else {
        lemma_chain_shrinks(parent, i - 1, j - 1);
    }
}

/// Every entry of the chain is shorter than the path.
pub proof fn lemma_chain_entry_shorter(path: Seq<char>, i: int)
    requires
        0 <= i < ancestor_chain(path).len(),
    ensures
        ancestor_chain(path)[i].len() < path.len(),
    decreases i,
{
    let parent = parent_of(path)->0;
    assert(ancestor_chain(path) == seq![parent] + ancestor_chain(parent));
    if i > 0 {
        lemma_chain_entry_shorter(parent, i - 1);
    }
}

/// The chain of directories above `child_path`, nearest first.
///
/// The result has one entry for each time a parent can be taken: entry `i` is
/// the path reached by taking the parent `i + 1` times, and the last entry
/// (or `child_path` itself, where the result is empty) has no parent.
pub fn parent_paths_from_child(child_path: &str) -> (parent_paths: Vec<String>)
    ensures
        parent_paths.deep_view() == ancestor_chain(child_path@),
        forall|i: int|
            0 <= i < parent_paths.len() ==> nth_parent(child_path@, (i + 1) as nat) == Some(
                #[trigger] parent_paths[i]@,
            ),
        nth_parent(child_path@, (parent_paths.len() + 1) as nat) is None,
        parent_of(child_path@) is None ==> parent_paths.len() == 0,
{
    let mut parent_paths: Vec<String> = Vec::new();
    assert(parent_paths.deep_view() =~= Seq::<Seq<char>>::empty());
    assert(nth_parent(child_path@, 0) == Some(child_path@));
    loop
        invariant
            ancestor_chain(child_path@) == parent_paths.deep_view() + ancestor_chain(
                chain_tip(child_path@, parent_paths.deep_view()),
            ),
            nth_parent(child_path@, parent_paths.len() as nat) == Some(
                chain_tip(child_path@, parent_paths.deep_view()),
            ),
            forall|i: int|
                0 <= i < parent_paths.len() ==> nth_parent(child_path@, (i + 1) as nat) == Some(
                    #[trigger] parent_paths[i]@,
                ),
            parent_of(child_path@) is None ==> parent_paths.len() == 0,
        decreases chain_tip(child_path@, parent_paths.deep_view()).len(),
    {
        let n: usize = parent_paths.len();
        let ghost before = parent_paths.deep_view();
        let ghost tip = chain_tip(child_path@, before);
        assert(n > 0 ==> tip == parent_paths[n - 1]@);
        let next = if n == 0 {
            path_parent(child_path)
        } else {
            path_parent(parent_paths[n - 1].as_str())
        };
        match next {
            Some(parent) => {
                parent_paths.push(parent);
                proof {
                    let after = parent_paths.deep_view();
                    assert(after =~= before + seq![parent@]);
                    assert(chain_tip(child_path@, after) == parent@);
                    assert(ancestor_chain(tip) == seq![parent@] + ancestor_chain(parent@));
                    assert(ancestor_chain(child_path@) =~= after + ancestor_chain(parent@));
                }
            },
            None => {
                proof {
                    assert(ancestor_chain(tip) == Seq::<Seq<char>>::empty());
                    assert(ancestor_chain(child_path@) =~= before);
                }
                return parent_paths;
            },
        }
    }
}

/// Resolves the path given to the monitor against the working directory.
pub fn resolve_target(working_dir: &str, input: &str) -> (target: String)
    ensures
        target@ == resolved(working_dir@, input@),
{
    if path_is_absolute(input) {
        input.to_owned()
    } else {
        path_join(working_dir, input)
    }
}

} // verus!
