use std::sync::Arc;

use arc_swap::ArcSwap;
use octocrab::Octocrab;

use vstd::prelude::*;

use crate::repo_name::GithubRepoName;
use crate::discovery::{discovered, lemma_discovered_exactly, loaded_keys};
use crate::repository::{key_of, keys_unique, RepositoryMap, RepositoryState};

verus! {

#[verifier::external_type_specification]
#[verifier::external_body]
pub struct ExOctocrab(Octocrab);

/// A cell that publishes one value at a time: readers take the current value
/// without blocking, and a writer replaces it whole in one atomic step.
/// Readers that took the old value keep it. What the cell holds changes
/// through a shared reference, so no contract names it; every value in it is
/// a complete value of `T`.
#[verifier::external_body]
#[verifier::reject_recursive_types(T)]
pub(crate) struct SnapshotCell<T> {
    cell: ArcSwap<T>,
}

impl<T> SnapshotCell<T> {
    /// Relies on arc_swap's `ArcSwapAny::new`: the cell starts out holding
    /// `value`.
    #[verifier::external_body]
    pub(crate) fn new(value: Arc<T>) -> (r: SnapshotCell<T>) {
        SnapshotCell { cell: ArcSwap::new(value) }
    }

    /// Relies on arc_swap's `ArcSwapAny::load_full`: a shared handle to the
    /// value published last, taken atomically.
    #[verifier::external_body]
    pub(crate) fn load_full(&self) -> (r: Arc<T>) {
        self.cell.load_full()
    }

    /// Relies on arc_swap's `ArcSwapAny::store`: replaces the published value
    /// atomically; handles taken before stay valid.
    #[verifier::external_body]
    pub(crate) fn store(&self, value: Arc<T>) {
        self.cell.store(value)
    }
}

/// The web address of GitHub.
pub fn base_github_html_url() -> (r: &'static str)
    ensures
        r@ == "https://github.com"@,
{
    "https://github.com"
}

/// The address of GitHub's REST API.
pub fn base_github_url() -> (r: &'static str)
    ensures
        r@ == "https://api.github.com"@,
{
    "https://api.github.com"
}

/// A GitHub account, as far as the directory needs to know it.
pub struct GithubUser {
    pub username: String,
    /// The address of the account's profile page.
    pub html_url: String,
}

/// A comment on a pull request.
pub struct PullRequestComment {
    pub author: GithubUser,
    pub text: String,
}

/// The lookup of `name` in one generation `map` of the directory, paired
/// with the storage handle.
pub open spec fn lookup_result<C, Cfg, P, D>(
    map: RepositoryMap<C, Cfg, P>,
    name: GithubRepoName,
    db: Arc<D>,
) -> Option<(Arc<RepositoryState<C, Cfg, P>>, Arc<D>)> {
    if map@.contains_key(name.key()) {
        Some((map@[name.key()], db))
    } else {
        None
    }
}

/// After a pass is published, a repository is found exactly when that pass
/// assembled it: one it dropped is no longer found, one it added is.
pub proof fn lemma_lookup_follows_discovery<C, Cfg, P, D>(
    steps: Seq<Option<crate::repo_name::RepoKey>>,
    map: RepositoryMap<C, Cfg, P>,
    name: GithubRepoName,
    db: Arc<D>,
)
    requires
        discovered(steps) == Ok::<Set<crate::repo_name::RepoKey>, crate::repo_name::RepoKey>(
            map@.dom(),
        ),
    ensures
        lookup_result(map, name, db).is_some() <==> steps.contains(Some(name.key())),
        lookup_result(map, name, db) matches Some((state, d)) ==> key_of(state) == name.key() && d
            == db,
{
    lemma_discovered_exactly(steps);
    if steps.contains(Some(name.key())) {
        let i = choose|i: int| 0 <= i < steps.len() && steps[i] == Some(name.key());
        assert(loaded_keys(steps).contains(name.key()));
    }
    if map@.contains_key(name.key()) {
        let s = map.bundles();
        let i = choose|i: int| 0 <= i < s.len() && #[trigger] key_of(s[i]) == name.key();
        assert(loaded_keys(steps).contains(name.key()));
    }
}

/// The repositories managed by one GitHub app, published as a whole so that
/// readers never see a mix of two discovery passes.
#[verifier::reject_recursive_types(C)]
#[verifier::reject_recursive_types(Cfg)]
#[verifier::reject_recursive_types(P)]
pub struct GithubAppState<C, Cfg, P, D> {
    app_html_url: String,
    client: Octocrab,
    repositories: SnapshotCell<RepositoryMap<C, Cfg, P>>,
    db: Arc<D>,
}

impl<C, Cfg, P, D> GithubAppState<C, Cfg, P, D> {
    pub closed spec fn app_html_url_spec(&self) -> Seq<char> {
        self.app_html_url@
    }

    pub closed spec fn db_spec(&self) -> Arc<D> {
        self.db
    }

    /// A directory that publishes `repositories`, found by discovery with
    /// `client` for the app whose profile page is `app_html_url`.
    pub fn new(app_html_url: String, client: Octocrab, repositories: RepositoryMap<C, Cfg, P>, db: D) -> (r:
        GithubAppState<C, Cfg, P, D>)
        ensures
            r.app_html_url_spec() == app_html_url@,
            *r.db_spec() == db,
    {
        GithubAppState {
            app_html_url,
            client,
            repositories: SnapshotCell::new(Arc::new(repositories)),
            db: Arc::new(db),
        }
    }

    /// Whether the comment was written by this app itself.
    pub fn is_comment_internal(&self, comment: &PullRequestComment) -> (r: bool)
        ensures
            r == (comment.author.html_url@ == self.app_html_url_spec()),
    {
        comment.author.html_url == self.app_html_url
    }

    /// The generation of the directory published now. Every lookup in it
    /// sees that one generation, whatever is published later.
    pub fn snapshot(&self) -> (r: Arc<RepositoryMap<C, Cfg, P>>) {
        self.repositories.load_full()
    }

    /// The bundle of `repo` in the generation `map`, with the storage handle.
    pub fn lookup_in(&self, map: &RepositoryMap<C, Cfg, P>, repo: &GithubRepoName) -> (r: Option<
        (Arc<RepositoryState<C, Cfg, P>>, Arc<D>),
    >)
        ensures
            r == lookup_result(*map, *repo, self.db_spec()),
    {
        match map.get(repo) {
            Some(state) => Some((state, Arc::clone(&self.db))),
            None => None,
        }
    }

    /// Every bundle of the generation `map`, with the storage handle.
    pub fn all_in(&self, map: &RepositoryMap<C, Cfg, P>) -> (r: (
        Vec<Arc<RepositoryState<C, Cfg, P>>>,
        Arc<D>,
    ))
        ensures
            r.0@ == map.bundles(),
            keys_unique(r.0@),
            r.1 == self.db_spec(),
    {
        (map.all(), Arc::clone(&self.db))
    }

    /// The bundle of `repo` in the generation published now, if it is
    /// managed.
    pub fn get_repo_state(&self, repo: &GithubRepoName) -> (r: Option<
        (Arc<RepositoryState<C, Cfg, P>>, Arc<D>),
    >)
        ensures
            exists|map: RepositoryMap<C, Cfg, P>| r == lookup_result(map, *repo, self.db_spec()),
            r matches Some((state, _)) ==> key_of(state) == repo.key(),
    {
        let map = self.snapshot();
        self.lookup_in(&map, repo)
    }

    /// Every bundle of the generation published now, taken from that one
    /// generation.
    pub fn get_all_repos(&self) -> (r: (Vec<Arc<RepositoryState<C, Cfg, P>>>, Arc<D>))
        ensures
            exists|map: RepositoryMap<C, Cfg, P>| r.0@ == map.bundles(),
            keys_unique(r.0@),
            r.1 == self.db_spec(),
    {
        let map = self.snapshot();
        self.all_in(&map)
    }

    /// Publishes the outcome of a discovery pass in one step. A failed pass
    /// publishes nothing, and its error is handed back.
    pub fn replace_repositories(
        &self,
        outcome: Result<RepositoryMap<C, Cfg, P>, crate::discovery::DiscoveryError>,
    ) -> (r: Result<(), crate::discovery::DiscoveryError>)
        ensures
            r.is_ok() == outcome.is_ok(),
            outcome matches Err(e) ==> r == Err::<(), crate::discovery::DiscoveryError>(e),
    {
        match outcome {
            Ok(map) => {
                self.repositories.store(Arc::new(map));
                Ok(())
            },
            Err(e) => Err(e),
        }
    }

    /// The client with which the app discovers its repositories.
    pub fn client(&self) -> &Octocrab {
        &self.client
    }

    /// The address of the app's profile page.
    pub fn app_html_url(&self) -> (r: &str)
        ensures
            r@ == self.app_html_url_spec(),
    {
        self.app_html_url.as_str()
    }
}

} // verus!
