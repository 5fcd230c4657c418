use std::sync::Arc;
use std::sync::RwLock;

use vstd::prelude::*;

use crate::repo_name::{GithubRepoName, RepoKey};

verus! {

#[verifier::external_type_specification]
#[verifier::external_body]
#[verifier::reject_recursive_types(T)]
pub struct ExRwLock<T: ?Sized>(RwLock<T>);

/// Relies on std's `RwLock::new`: it makes an unlocked lock holding the
/// value. What the lock holds can change through a shared reference, so
/// nothing is stated of it.
pub assume_specification<T>[ RwLock::<T>::new ](t: T) -> RwLock<T>;

/// Everything the bot keeps for one managed repository.
#[verifier::reject_recursive_types(Cfg)]
pub struct RepositoryState<C, Cfg, P> {
    /// The repository this bundle belongs to.
    pub repository: GithubRepoName,
    /// A client bound to this repository.
    pub client: C,
    /// The bot configuration of the repository, reloadable on its own.
    pub config: RwLock<Cfg>,
    /// Answers whether a user may perform a privileged action here.
    pub permissions_resolver: P,
}

impl<C, Cfg, P> RepositoryState<C, Cfg, P> {
    pub fn new(repository: GithubRepoName, client: C, config: Cfg, permissions_resolver: P) -> (r:
        RepositoryState<C, Cfg, P>)
        ensures
            r.repository == repository,
            r.client == client,
            r.permissions_resolver == permissions_resolver,
    {
        RepositoryState { repository, client, config: RwLock::new(config), permissions_resolver }
    }
}

/// The key of a shared bundle.
pub open spec fn key_of<C, Cfg, P>(b: Arc<RepositoryState<C, Cfg, P>>) -> RepoKey {
    b.repository.key()
}

/// No two bundles of `s` belong to the same repository.
pub open spec fn keys_unique<C, Cfg, P>(s: Seq<Arc<RepositoryState<C, Cfg, P>>>) -> bool {
    forall|i: int, j: int|
        0 <= i < s.len() && 0 <= j < s.len() && i != j ==> #[trigger] key_of(s[i]) != #[trigger] key_of(
            s[j],
        )
}

/// Some bundle of `s` belongs to the repository `k`.
pub open spec fn has_key<C, Cfg, P>(s: Seq<Arc<RepositoryState<C, Cfg, P>>>, k: RepoKey) -> bool {
    exists|i: int| 0 <= i < s.len() && #[trigger] key_of(s[i]) == k
}

/// The bundles of `s` by the repository they belong to.
pub open spec fn as_map<C, Cfg, P>(s: Seq<Arc<RepositoryState<C, Cfg, P>>>) -> Map<
    RepoKey,
    Arc<RepositoryState<C, Cfg, P>>,
> {
    Map::new(
        |k: RepoKey| has_key(s, k),
        |k: RepoKey| s[choose|i: int| 0 <= i < s.len() && #[trigger] key_of(s[i]) == k],
    )
}

/// One generation of the directory: an immutable set of bundles, at most one
/// per repository.
#[verifier::reject_recursive_types(Cfg)]
pub struct RepositoryMap<C, Cfg, P> {
    entries: Vec<Arc<RepositoryState<C, Cfg, P>>>,
}

impl<C, Cfg, P> RepositoryMap<C, Cfg, P> {
    #[verifier::type_invariant]
    closed spec fn unique(&self) -> bool {
        keys_unique(self.entries@)
    }

    /// The bundles, in the order in which they were added.
    pub closed spec fn bundles(&self) -> Seq<Arc<RepositoryState<C, Cfg, P>>> {
        self.entries@
    }

    pub open spec fn view(&self) -> Map<RepoKey, Arc<RepositoryState<C, Cfg, P>>> {
        as_map(self.bundles())
    }

    pub fn empty() -> (r: RepositoryMap<C, Cfg, P>)
        ensures
            r.bundles() == Seq::<Arc<RepositoryState<C, Cfg, P>>>::empty(),
    {
        RepositoryMap { entries: Vec::new() }
    }

    pub fn len(&self) -> (r: usize)
        ensures
            r == self.bundles().len(),
    {
        self.entries.len()
    }

    /// The position of the bundle of `name`, if there is one.
    fn position(&self, name: &GithubRepoName) -> (r: Option<usize>)
        ensures
            match r {
                Some(i) => i < self.bundles().len() && key_of(self.bundles()[i as int])
                    == name.key(),
                None => !has_key(self.bundles(), name.key()),
            },
    {
        let mut i: usize = 0;
        while i < self.entries.len()
            invariant
                i <= self.entries@.len(),
                forall|j: int| 0 <= j < i ==> #[trigger] key_of(self.entries@[j]) != name.key(),
            decreases self.entries@.len() - i,
        {
            if self.entries[i].repository.same_as(name) {
                return Some(i);
            }
            i = i + 1;
        }
        None
    }

    /// Adds `state` unless its repository is registered already, in which
    /// case the map is left as it was and the name found is returned.
    pub fn insert_new(&mut self, state: RepositoryState<C, Cfg, P>) -> (r: Result<(), GithubRepoName>)
        ensures
            match r {
                Ok(()) => !has_key(old(self).bundles(), state.repository.key())
                    && final(self).bundles() == old(self).bundles().push(Arc::new(state)),
                Err(existing) => has_key(old(self).bundles(), state.repository.key())
                    && existing.key() == state.repository.key() && final(self).bundles()
                    == old(self).bundles(),
            },
    {
        proof {
            use_type_invariant(&*self);
        }
        match self.position(&state.repository) {
            Some(i) => Err(self.entries[i].repository.clone()),
            None => {
                let ghost before = self.entries@;
                let mut entries: Vec<Arc<RepositoryState<C, Cfg, P>>> = Vec::new();
                std::mem::swap(&mut entries, &mut self.entries);
                entries.push(Arc::new(state));
                proof {
                    assert forall|i: int, j: int|
                        0 <= i < entries@.len() && 0 <= j < entries@.len() && i != j implies #[trigger] key_of(
                        entries@[i],
                    ) != #[trigger] key_of(entries@[j]) by {
                        if i == before.len() as int {
                            assert(key_of(before[j]) != state.repository.key());
                        } else if j == before.len() as int {
                            assert(key_of(before[i]) != state.repository.key());
                        } else {
                            assert(key_of(before[i]) != key_of(before[j]));
                        }
                    }
                }
                self.entries = entries;
                Ok(())
            },
        }
    }

    /// The bundle registered for `name`, if any.
    pub fn get(&self, name: &GithubRepoName) -> (r: Option<Arc<RepositoryState<C, Cfg, P>>>)
        ensures
            keys_unique(self.bundles()),
            r == (if self@.contains_key(name.key()) {
                Some(self@[name.key()])
            } else {
                None
            }),
    {
        proof {
            use_type_invariant(self);
        }
        match self.position(name) {
            Some(i) => {
                let b = Arc::clone(&self.entries[i]);
                proof {
                    let s = self.bundles();
                    assert(has_key(s, name.key()));
                    let c = choose|j: int| 0 <= j < s.len() && #[trigger] key_of(s[j]) == name.key();
                    assert(c == i);
                }
                Some(b)
            },
            None => None,
        }
    }

    /// Every registered bundle.
    pub fn all(&self) -> (r: Vec<Arc<RepositoryState<C, Cfg, P>>>)
        ensures
            r@ == self.bundles(),
            keys_unique(r@),
    {
        proof {
            use_type_invariant(self);
        }
        let mut r: Vec<Arc<RepositoryState<C, Cfg, P>>> = Vec::new();
        let mut i: usize = 0;
        while i < self.entries.len()
            invariant
                i <= self.entries@.len(),
                r@ == self.entries@.subrange(0, i as int),
            decreases self.entries@.len() - i,
        {
            r.push(Arc::clone(&self.entries[i]));
            i = i + 1;
        }
        assert(r@ =~= self.entries@);
        r
    }
}

} // verus!
