//! The registry of open projects.

use crate::error::{Error, LookupError};
use crate::models::Project;
use crate::seqs::{lemma_filter_none_or_all, lemma_position, lemma_position_is, position};
use crate::text::str_eq;
use vstd::prelude::*;
use vstd::string::*;

verus! {

/// The projects with the key.
pub open spec fn with_key<S, I>(key: Seq<char>) -> spec_fn(Project<S, I>) -> bool {
    |p: Project<S, I>| p.key@ == key
}

/// The projects with another key.
pub open spec fn other_key<S, I>(key: Seq<char>) -> spec_fn(Project<S, I>) -> bool {
    |p: Project<S, I>| p.key@ != key
}

/// Whether a project of `projects` has the key.
pub open spec fn contains_key<S, I>(projects: Seq<Project<S, I>>, key: Seq<char>) -> bool {
    position(projects, with_key(key)) < projects.len()
}

/// The first project of `projects` with the key.
pub open spec fn project_of<S, I>(projects: Seq<Project<S, I>>, key: Seq<char>) -> Project<S, I> {
    projects[position(projects, with_key(key))]
}

/// How many projects of `projects` have the key.
pub open spec fn count_key<S, I>(projects: Seq<Project<S, I>>, key: Seq<char>) -> nat {
    projects.filter(with_key(key)).len()
}

/// Whether no two projects of `projects` have the same key.
pub open spec fn unique_keys<S, I>(projects: Seq<Project<S, I>>) -> bool {
    forall|i: int, j: int|
        0 <= i < j < projects.len() ==> (#[trigger] projects[i]).key@ != (
        #[trigger] projects[j]).key@
}

/// A key is held by some project exactly when at least one project has it.
pub proof fn lemma_contains_count<S, I>(projects: Seq<Project<S, I>>, key: Seq<char>)
    ensures
        contains_key(projects, key) <==> count_key(projects, key) > 0,
        contains_key(projects, key) <==> exists|i: int|
            0 <= i < projects.len() && (#[trigger] projects[i]).key@ == key,
{
    let p = with_key::<S, I>(key);
    lemma_position(projects, p);
    lemma_filter_none_or_all(projects, p);
    let n = position(projects, p);
    if n < projects.len() {
        assert(projects[n].key@ == key);
        projects.lemma_filter_contains(p, n);
        assert(projects.filter(p).contains(projects[n]));
    } else {
        assert forall|j: int| 0 <= j < projects.len() implies !p(#[trigger] projects[j]) by {}
        assert forall|i: int| 0 <= i < projects.len() implies (#[trigger] projects[i]).key@
            != key by {
            assert(!p(projects[i]));
        }
    }
}

/// After a project was added whose key no project had, exactly one project has
/// that key, and keys that were unique stay so.
pub proof fn lemma_added<S, I>(projects: Seq<Project<S, I>>, project: Project<S, I>)
    requires
        !contains_key(projects, project.key@),
    ensures
        count_key(projects.push(project), project.key@) == 1,
        contains_key(projects.push(project), project.key@),
        unique_keys(projects) ==> unique_keys(projects.push(project)),
{
    let key = project.key@;
    let p = with_key::<S, I>(key);
    lemma_contains_count(projects, key);
    projects.lemma_filter_push(project, p);
    assert(p(project));
    lemma_contains_count(projects.push(project), key);
    if unique_keys(projects) {
        let next = projects.push(project);
        assert forall|i: int, j: int| 0 <= i < j < next.len() implies (#[trigger] next[i]).key@ != (
        #[trigger] next[j]).key@ by {
            if j < projects.len() {
                assert(next[i] == projects[i] && next[j] == projects[j]);
            } else {
                assert(next[i] == projects[i]);
            }
        }
    }
}

/// After the projects with a key were removed, no project has that key; the
/// others are all there, in their order; removing again changes nothing; and
/// keys that were unique stay so.
pub proof fn lemma_removed<S, I>(projects: Seq<Project<S, I>>, key: Seq<char>)
    ensures
        !contains_key(projects.filter(other_key(key)), key),
        count_key(projects.filter(other_key(key)), key) == 0,
        projects.filter(other_key(key)).filter(other_key(key)) == projects.filter(other_key(key)),
        !contains_key(projects, key) ==> projects.filter(other_key(key)) == projects,
        forall|other: Seq<char>|
            other != key ==> #[trigger] count_key(projects.filter(other_key(key)), other)
                == count_key(projects, other),
{
    let keep = other_key::<S, I>(key);
    let rest = projects.filter(keep);
    assert forall|j: int| 0 <= j < rest.len() implies keep(#[trigger] rest[j]) by {
        projects.lemma_filter_pred(keep, j);
    }
    lemma_filter_none_or_all(rest, keep);
    lemma_contains_count(rest, key);
    assert forall|j: int| 0 <= j < rest.len() implies !with_key::<S, I>(key)(
        #[trigger] rest[j],
    ) by {
        assert(keep(rest[j]));
    }
    lemma_filter_none_or_all(rest, with_key::<S, I>(key));
    if !contains_key(projects, key) {
        lemma_contains_count(projects, key);
        assert forall|j: int| 0 <= j < projects.len() implies keep(#[trigger] projects[j]) by {}
        lemma_filter_none_or_all(projects, keep);
    }
    assert forall|other: Seq<char>| other != key implies #[trigger] count_key(rest, other)
        == count_key(projects, other) by {
        lemma_filter_twice(projects, key, other);
    }
}

/// Removing the projects with one key leaves as many projects with another key
/// as there were.
pub proof fn lemma_filter_twice<S, I>(
    projects: Seq<Project<S, I>>,
    key: Seq<char>,
    other: Seq<char>,
)
    requires
        other != key,
    ensures
        count_key(projects.filter(other_key(key)), other) == count_key(projects, other),
    decreases projects.len(),
{
    reveal(Seq::filter);
    let keep = other_key::<S, I>(key);
    let pick = with_key::<S, I>(other);
    if projects.len() > 0 {
        let t = projects.drop_last();
        let x = projects.last();
        lemma_filter_twice(t, key, other);
        assert(t.push(x) =~= projects);
        t.lemma_filter_push(x, keep);
        t.lemma_filter_push(x, pick);
        if keep(x) {
            t.filter(keep).lemma_filter_push(x, pick);
        }
    }
}

/// The table of the projects that are open.
#[derive(Debug, Clone, PartialEq, Eq)]
pub struct Registry<S, I> {
    pub projects: Vec<Project<S, I>>,
}

impl<S, I> View for Registry<S, I> {
    type V = Seq<Project<S, I>>;

    open spec fn view(&self) -> Seq<Project<S, I>> {
        self.projects@
    }
}

impl<S, I> Registry<S, I> {
    /// A registry without projects.
    pub fn new() -> (r: Registry<S, I>)
        ensures
            r@ == Seq::<Project<S, I>>::empty(),
            unique_keys(r@),
    {
        Registry { projects: Vec::new() }
    }

    /// The number of projects.
    pub fn len(&self) -> (n: usize)
        ensures
            n == self@.len(),
    {
        self.projects.len()
    }
}

/// The index of the first project with the key.
pub fn project_index<S, I>(registry: &Registry<S, I>, key: &str) -> (r: Option<usize>)
    ensures
        match r {
            Some(i) => i < registry@.len() && i == position(registry@, with_key(key@)),
            None => position(registry@, with_key(key@)) == registry@.len(),
        },
        r is Some <==> contains_key(registry@, key@),
{
    let mut i: usize = 0;
    while i < registry.projects.len()
        invariant
            i <= registry.projects.len(),
            forall|j: int| 0 <= j < i ==> !with_key::<S, I>(key@)(#[trigger] registry@[j]),
        decreases registry.projects.len() - i,
    {
        if str_eq(registry.projects[i].key.as_str(), key) {
            proof {
                lemma_position_is(registry@, with_key(key@), i as int);
            }
            return Some(i);
        }
        i = i + 1;
    }
    proof {
        lemma_position_is(registry@, with_key(key@), i as int);
    }
    None
}

/// The first project with the key.
pub fn get_project_by_key<'a, S, I>(registry: &'a Registry<S, I>, key: &str) -> (r: Result<
    &'a Project<S, I>,
    LookupError,
>)
    ensures
        match r {
            Ok(project) => contains_key(registry@, key@) && *project == project_of(
                registry@,
                key@,
            ) && project.key@ == key@,
            Err(e) => e == LookupError::ProjectNotFound && !contains_key(registry@, key@),
        },
{
    match project_index(registry, key) {
        Some(i) => {
            proof {
                lemma_position(registry@, with_key(key@));
            }
            Ok(&registry.projects[i])
        },
        None => Err(LookupError::ProjectNotFound),
    }
}

/// Adds a project, unless a project with its key is there already.
pub fn add_project<S, I>(registry: &mut Registry<S, I>, project: Project<S, I>) -> (r: Result<
    (),
    Error,
>)
    ensures
        contains_key(old(registry)@, project.key@) ==> r == Err::<(), Error>(Error::DuplicateKey)
            && final(registry)@ == old(registry)@,
        !contains_key(old(registry)@, project.key@) ==> r is Ok && final(registry)@ == old(
            registry,
        )@.push(project) && count_key(final(registry)@, project.key@) == 1,
        unique_keys(old(registry)@) ==> unique_keys(final(registry)@),
{
    match project_index(registry, project.key.as_str()) {
        Some(_) => Err(Error::DuplicateKey),
        None => {
            proof {
                lemma_added(registry@, project);
            }
            registry.projects.push(project);
            Ok(())
        },
    }
}

/// Removes the projects with the key and hands them out.
pub fn take_projects<S, I>(registry: &mut Registry<S, I>, key: &str) -> (r: Vec<Project<S, I>>)
    ensures
        final(registry)@ == old(registry)@.filter(other_key(key@)),
        r@ == old(registry)@.filter(with_key(key@)),
        r@.len() > 0 <==> contains_key(old(registry)@, key@),
        unique_keys(old(registry)@) ==> unique_keys(final(registry)@),
{
    let mut taken: Vec<Project<S, I>> = Vec::new();
    let mut i: usize = 0;
    let ghost mut k: int = 0;
    let ghost all = registry@;
    let ghost keep = other_key::<S, I>(key@);
    let ghost pick = with_key::<S, I>(key@);
    proof {
        reveal(Seq::filter);
        assert(all.take(0).filter(keep) =~= Seq::<Project<S, I>>::empty());
        assert(all.take(0).filter(pick) =~= Seq::<Project<S, I>>::empty());
        assert(registry@.take(0) =~= Seq::<Project<S, I>>::empty());
        assert(registry@.skip(0) =~= all.skip(0));
    }
    while i < registry.projects.len()
        invariant
            0 <= k <= all.len(),
            i <= registry.projects.len(),
            registry.projects.len() - i == all.len() - k,
            registry@.take(i as int) == all.take(k).filter(keep),
            registry@.skip(i as int) == all.skip(k),
            taken@ == all.take(k).filter(pick),
            keep == other_key::<S, I>(key@),
            pick == with_key::<S, I>(key@),
        decreases registry.projects.len() - i,
    {
        let ghost before = registry@;
        proof {
            assert(all.take(k + 1) =~= all.take(k).push(all[k]));
            all.take(k).lemma_filter_push(all[k], keep);
            all.take(k).lemma_filter_push(all[k], pick);
            assert(before[i as int] == before.skip(i as int)[0]);
            assert(all[k] == all.skip(k)[0]);
        }
        if str_eq(registry.projects[i].key.as_str(), key) {
            let project = registry.projects.remove(i);
            taken.push(project);
            proof {
                assert(registry@.take(i as int) =~= before.take(i as int));
                assert(registry@.skip(i as int) =~= before.skip(i as int).skip(1));
                assert(all.skip(k).skip(1) =~= all.skip(k + 1));
                k = k + 1;
            }
        } else {
            proof {
                assert(registry@.take(i + 1) =~= before.take(i as int).push(before[i as int]));
                assert(registry@.skip(i + 1) =~= before.skip(i as int).skip(1));
                assert(all.skip(k).skip(1) =~= all.skip(k + 1));
                k = k + 1;
            }
            i = i + 1;
        }
    }
    proof {
        assert(registry@.take(i as int) =~= registry@);
        assert(all.take(k) =~= all);
        lemma_contains_count(all, key@);
        lemma_filter_keeps_unique(all, keep);
    }
    taken
}

/// Filtering a sequence of projects with unique keys leaves the keys unique.
pub proof fn lemma_filter_keeps_unique<S, I>(
    projects: Seq<Project<S, I>>,
    p: spec_fn(Project<S, I>) -> bool,
)
    ensures
        unique_keys(projects) ==> unique_keys(projects.filter(p)),
    decreases projects.len(),
{
    reveal(Seq::filter);
    if projects.len() > 0 && unique_keys(projects) {
        let t = projects.drop_last();
        let x = projects.last();
        assert forall|i: int, j: int| 0 <= i < j < t.len() implies (#[trigger] t[i]).key@ != (
        #[trigger] t[j]).key@ by {
            assert(t[i] == projects[i] && t[j] == projects[j]);
        }
        lemma_filter_keeps_unique(t, p);
        let f = t.filter(p);
        if p(x) {
            let next = f.push(x);
            assert forall|i: int, j: int| 0 <= i < j < next.len() implies (
            #[trigger] next[i]).key@ != (#[trigger] next[j]).key@ by {
                if j < f.len() {
                    assert(next[i] == f[i] && next[j] == f[j]);
                } else {
                    assert(next[i] == f[i]);
                    assert(f.contains(f[i]));
                    t.lemma_filter_contains_rev(p, f[i]);
                    let m = choose|m: int| 0 <= m < t.len() && t[m] == f[i];
                    assert(projects[m] == t[m]);
                    assert(projects[projects.len() - 1] == x);
                }
            }
        }
    }
}

/// Removes the projects with the key.
pub fn remove_project_by_key<S, I>(registry: &mut Registry<S, I>, key: &str) -> (r: Result<
    (),
    LookupError,
>)
    ensures
        final(registry)@ == old(registry)@.filter(other_key(key@)),
        !contains_key(final(registry)@, key@),
        contains_key(old(registry)@, key@) ==> r is Ok,
        !contains_key(old(registry)@, key@) ==> r == Err::<(), LookupError>(
            LookupError::ProjectNotFound,
        ) && final(registry)@ == old(registry)@,
        unique_keys(old(registry)@) ==> unique_keys(final(registry)@),
{
    proof {
        lemma_removed(registry@, key@);
    }
    let taken = take_projects(registry, key);
    if taken.len() > 0 {
        Ok(())
    } else {
        Err(LookupError::ProjectNotFound)
    }
}

} // verus!
