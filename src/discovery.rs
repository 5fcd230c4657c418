use std::sync::Arc;

use vstd::prelude::*;

use crate::repo_name::{GithubRepoName, RepoKey};
use crate::repository::{has_key, RepositoryMap, RepositoryState};

verus! {

/// A unit of discovery work that was given up; the pass goes on without it.
#[derive(Debug)]
pub enum RepositoryFailure {
    /// The repository list of an installation could not be fetched.
    InstallationRepositories { installation_id: u64 },
    /// The repository has no owner, so it has no identity.
    MissingOwner { repository_name: String },
    /// The configuration of the repository could not be loaded.
    Config { repository: GithubRepoName },
    /// The permissions of the repository could not be loaded.
    Permissions { repository: GithubRepoName },
}

/// What fails a whole discovery pass.
#[derive(Debug)]
pub enum DiscoveryError {
    /// The repository was granted to two installations.
    DuplicateRepository { repository: GithubRepoName },
}

/// The outcome of a pass over a sequence of units: `Some(k)` for a
/// repository `k` whose bundle was assembled, `None` for a unit given up.
/// The pass fails on the first repository seen twice; otherwise it yields the
/// repositories seen.
pub open spec fn discovered(steps: Seq<Option<RepoKey>>) -> Result<Set<RepoKey>, RepoKey>
    decreases steps.len(),
{
    if steps.len() == 0 {
        Ok(Set::empty())
    } else {
        match discovered(steps.drop_last()) {
            Err(k) => Err(k),
            Ok(s) => match steps.last() {
                None => Ok(s),
                Some(k) => if s.contains(k) {
                    Err(k)
                } else {
                    Ok(s.insert(k))
                },
            },
        }
    }
}

/// The repositories assembled in `steps`.
pub open spec fn loaded_keys(steps: Seq<Option<RepoKey>>) -> Set<RepoKey> {
    Set::new(|k: RepoKey| exists|i: int| 0 <= i < steps.len() && steps[i] == Some(k))
}

/// No repository is assembled twice in `steps`.
pub open spec fn loaded_distinct(steps: Seq<Option<RepoKey>>) -> bool {
    forall|i: int, j: int|
        0 <= i < j < steps.len() && (#[trigger] steps[i]).is_some() ==> steps[i] != #[trigger] steps[j]
}

/// A pass succeeds exactly when no repository is assembled twice, and then
/// yields every repository assembled and nothing else.
pub proof fn lemma_discovered_exactly(steps: Seq<Option<RepoKey>>)
    ensures
        discovered(steps).is_ok() == loaded_distinct(steps),
        discovered(steps).is_ok() ==> discovered(steps) == Ok::<Set<RepoKey>, RepoKey>(
            loaded_keys(steps),
        ),
    decreases steps.len(),
{
    if steps.len() > 0 {
        let pre = steps.drop_last();
        let n = pre.len() as int;
        lemma_discovered_exactly(pre);
        assert forall|i: int| 0 <= i < n implies steps[i] == pre[i] by {}
        match discovered(pre) {
            Err(_) => {
                let (i, j) = choose|i: int, j: int|
                    0 <= i < j < pre.len() && (#[trigger] pre[i]).is_some() && pre[i] == #[trigger] pre[j];
                assert(steps[i] == pre[i] && steps[j] == pre[j]);
            },
            Ok(s) => {
                assert(s == loaded_keys(pre));
                match steps.last() {
                    None => {
                        assert(loaded_keys(steps) =~= loaded_keys(pre));
                        assert forall|i: int, j: int|
                            0 <= i < j < steps.len() && (#[trigger] steps[i]).is_some() implies steps[i]
                            != #[trigger] steps[j] by {
                            if j < n {
                                assert(pre[i] != pre[j]);
                            }
                        }
                    },
                    Some(k) => {
                        if s.contains(k) {
                            let i = choose|i: int| 0 <= i < pre.len() && pre[i] == Some(k);
                            assert(steps[i] == steps[n]);
                        } else {
                            assert(loaded_keys(steps) =~= loaded_keys(pre).insert(k));
                            assert forall|i: int, j: int|
                                0 <= i < j < steps.len() && (#[trigger] steps[i]).is_some() implies steps[i]
                                != #[trigger] steps[j] by {
                                if j < n {
                                    assert(pre[i] != pre[j]);
                                } else {
                                    assert(steps[i] == pre[i]);
                                    if steps[i] == Some(k) {
                                        assert(loaded_keys(pre).contains(k));
                                    }
                                }
                            }
                        }
                    },
                }
            },
        }
    } else {
        assert(loaded_keys(steps) =~= Set::empty());
    }
}

/// A repository granted to two installations fails the whole pass, whatever
/// else the pass saw.
pub proof fn lemma_duplicate_fails_pass(steps: Seq<Option<RepoKey>>, i: int, j: int, k: RepoKey)
    requires
        0 <= i < j < steps.len(),
        steps[i] == Some(k),
        steps[j] == Some(k),
    ensures
        discovered(steps).is_err(),
{
    lemma_discovered_exactly(steps);
    assert(steps[i].is_some() && steps[i] == steps[j]);
}

/// Units given up leave no trace in the outcome: a pass whose assembled
/// repositories are distinct succeeds with exactly those.
pub proof fn lemma_failures_are_isolated(steps: Seq<Option<RepoKey>>)
    requires
        loaded_distinct(steps),
    ensures
        discovered(steps) == Ok::<Set<RepoKey>, RepoKey>(loaded_keys(steps)),
        forall|k: RepoKey| #[trigger] loaded_keys(steps).contains(k) <==> steps.contains(Some(k)),
{
    lemma_discovered_exactly(steps);
    assert forall|k: RepoKey| #[trigger] loaded_keys(steps).contains(k) <==> steps.contains(Some(k)) by {
        if steps.contains(Some(k)) {
            let i = choose|i: int| 0 <= i < steps.len() && steps[i] == Some(k);
            assert(loaded_keys(steps).contains(k));
        }
    }
}

/// Derives the identity of a discovered repository; one without an owner
/// has none.
pub fn repository_identity(owner: Option<&str>, name: &str) -> (r: Result<
    GithubRepoName,
    RepositoryFailure,
>)
    ensures
        match owner {
            Some(o) => r matches Ok(n) && n.owner_spec() == o@ && n.name_spec() == name@,
            None => r matches Err(RepositoryFailure::MissingOwner { repository_name }) && repository_name@
                == name@,
        },
{
    match owner {
        Some(o) => Ok(GithubRepoName::new(o, name)),
        None => Err(RepositoryFailure::MissingOwner { repository_name: String::from_str(name) }),
    }
}

/// A discovery pass under way: the bundles assembled so far, and the units
/// given up.
#[verifier::reject_recursive_types(Cfg)]
pub struct DiscoveryPass<C, Cfg, P> {
    repositories: RepositoryMap<C, Cfg, P>,
    failures: Vec<RepositoryFailure>,
    steps: Ghost<Seq<Option<RepoKey>>>,
}

impl<C, Cfg, P> DiscoveryPass<C, Cfg, P> {
    /// The bundles assembled are the outcome of the units handled so far.
    pub closed spec fn wf(&self) -> bool {
        discovered(self.steps@) == Ok::<Set<RepoKey>, RepoKey>(self.repositories@.dom())
    }

    /// The units handled so far, in order.
    pub closed spec fn steps(&self) -> Seq<Option<RepoKey>> {
        self.steps@
    }

    pub closed spec fn bundles(&self) -> Seq<Arc<RepositoryState<C, Cfg, P>>> {
        self.repositories.bundles()
    }

    pub closed spec fn failures_spec(&self) -> Seq<RepositoryFailure> {
        self.failures@
    }

    pub fn new() -> (r: DiscoveryPass<C, Cfg, P>)
        ensures
            r.wf(),
            r.steps() == Seq::<Option<RepoKey>>::empty(),
            r.bundles() == Seq::<Arc<RepositoryState<C, Cfg, P>>>::empty(),
            r.failures_spec() == Seq::<RepositoryFailure>::empty(),
    {
        let repositories = RepositoryMap::empty();
        proof {
            assert(repositories@.dom() =~= Set::empty());
        }
        DiscoveryPass { repositories, failures: Vec::new(), steps: Ghost(Seq::empty()) }
    }

    /// Records a unit that was given up; the pass goes on.
    pub fn record_failure(&mut self, failure: RepositoryFailure)
        requires
            old(self).wf(),
        ensures
            final(self).wf(),
            final(self).steps() == old(self).steps().push(None),
            final(self).bundles() == old(self).bundles(),
            final(self).failures_spec() == old(self).failures_spec().push(failure),
    {
        proof {
            let pre = self.steps@;
            assert(pre.push(None).drop_last() == pre);
        }
        self.failures.push(failure);
        self.steps = Ghost(self.steps@.push(None));
    }

    /// Adds the bundle of a repository. A repository met a second time fails
    /// the pass, and the pass is left as it was.
    pub fn add_repository(&mut self, state: RepositoryState<C, Cfg, P>) -> (r: Result<
        (),
        DiscoveryError,
    >)
        requires
            old(self).wf(),
        ensures
            final(self).wf(),
            final(self).failures_spec() == old(self).failures_spec(),
            r.is_ok() == discovered(old(self).steps().push(Some(state.repository.key()))).is_ok(),
            match r {
                Ok(()) => final(self).steps() == old(self).steps().push(
                    Some(state.repository.key()),
                ) && final(self).bundles() == old(self).bundles().push(Arc::new(state)),
                Err(DiscoveryError::DuplicateRepository { repository }) => repository.key()
                    == state.repository.key() && final(self).steps() == old(self).steps()
                    && final(self).bundles() == old(self).bundles(),
            },
    {
        let ghost k = state.repository.key();
        let ghost pre = self.steps@;
        proof {
            assert(pre.push(Some(k)).drop_last() == pre);
        }
        match self.repositories.insert_new(state) {
            Ok(()) => {
                proof {
                    let s = self.repositories.bundles();
                    assert(self.repositories@.dom() =~= old(self).repositories@.dom().insert(k)) by {
                        assert(crate::repository::key_of(s[s.len() - 1]) == k);
                        assert forall|x: RepoKey|
                            old(self).repositories@.dom().contains(x) implies #[trigger] has_key(s, x) by {
                            if old(self).repositories@.dom().contains(x) {
                                let i = choose|i: int|
                                    0 <= i < old(self).repositories.bundles().len()
                                        && #[trigger] crate::repository::key_of(
                                        old(self).repositories.bundles()[i],
                                    ) == x;
                                assert(s[i] == old(self).repositories.bundles()[i]);
                            }
                        }
                        assert forall|x: RepoKey| #[trigger] has_key(s, x) implies x == k
                            || old(self).repositories@.dom().contains(x) by {
                            let i = choose|i: int|
                                0 <= i < s.len() && #[trigger] crate::repository::key_of(s[i]) == x;
                            if i < s.len() - 1 {
                                assert(has_key(old(self).repositories.bundles(), x));
                            }
                        }
                    }
                }
                self.steps = Ghost(self.steps@.push(Some(k)));
                Ok(())
            },
            Err(existing) => Err(DiscoveryError::DuplicateRepository { repository: existing }),
        }
    }

    /// Ends the pass with the bundles assembled: the repositories that the
    /// units handled add up to.
    pub fn finish(self) -> (r: RepositoryMap<C, Cfg, P>)
        requires
            self.wf(),
        ensures
            discovered(self.steps()) == Ok::<Set<RepoKey>, RepoKey>(r@.dom()),
            r.bundles() == self.bundles(),
    {
        self.repositories
    }

    /// The units given up so far.
    pub fn failures(&self) -> (r: &Vec<RepositoryFailure>)
        ensures
            r@ == self.failures_spec(),
    {
        &self.failures
    }
}

} // verus!
