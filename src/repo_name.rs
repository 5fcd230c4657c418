use vstd::prelude::*;

verus! {

/// What identifies a repository in the directory: its owner and its name,
/// compared case-sensitively.
pub type RepoKey = (Seq<char>, Seq<char>);

/// The identity of a repository on GitHub (`owner/name`).
#[derive(Debug, Hash)]
pub struct GithubRepoName {
    owner: String,
    name: String,
}

/// The text `owner/name`.
pub open spec fn full_name_of(owner: Seq<char>, name: Seq<char>) -> Seq<char> {
    owner + seq!['/'] + name
}

impl GithubRepoName {
    pub closed spec fn owner_spec(&self) -> Seq<char> {
        self.owner@
    }

    pub closed spec fn name_spec(&self) -> Seq<char> {
        self.name@
    }

    /// The key under which the repository is registered.
    pub open spec fn key(&self) -> RepoKey {
        (self.owner_spec(), self.name_spec())
    }

    pub fn new(owner: &str, name: &str) -> (r: GithubRepoName)
        ensures
            r.owner_spec() == owner@,
            r.name_spec() == name@,
    {
        GithubRepoName { owner: String::from_str(owner), name: String::from_str(name) }
    }

    pub fn owner(&self) -> (r: &str)
        ensures
            r@ == self.owner_spec(),
    {
        self.owner.as_str()
    }

    pub fn name(&self) -> (r: &str)
        ensures
            r@ == self.name_spec(),
    {
        self.name.as_str()
    }

    /// Renders the identity as `owner/name`.
    pub fn full_name(&self) -> (r: String)
        ensures
            r@ == full_name_of(self.owner_spec(), self.name_spec()),
    {
        let mut r = self.owner.clone();
        r.append("/");
        r.append(self.name.as_str());
        proof {
            reveal_strlit("/");
        }
        r
    }

    pub fn same_as(&self, other: &GithubRepoName) -> (r: bool)
        ensures
            r == (self.key() == other.key()),
    {
        self.owner == other.owner && self.name == other.name
    }
}

impl Clone for GithubRepoName {
    fn clone(&self) -> (r: GithubRepoName)
        ensures
            r == *self,
    {
        GithubRepoName { owner: self.owner.clone(), name: self.name.clone() }
    }
}

impl PartialEq for GithubRepoName {
    fn eq(&self, other: &GithubRepoName) -> (r: bool) {
        self.owner == other.owner && self.name == other.name
    }
}

impl Eq for GithubRepoName {
}

impl vstd::std_specs::cmp::PartialEqSpecImpl for GithubRepoName {
    open spec fn obeys_eq_spec() -> bool {
        true
    }

    open spec fn eq_spec(&self, other: &GithubRepoName) -> bool {
        self.key() == other.key()
    }
}

/// Rendering an identity made of `owner` and `name` gives `owner/name`.
pub proof fn lemma_full_name_round_trip(owner: Seq<char>, name: Seq<char>)
    ensures
        full_name_of(owner, name).subrange(0, owner.len() as int) == owner,
        full_name_of(owner, name)[owner.len() as int] == '/',
        full_name_of(owner, name).subrange(owner.len() as int + 1, full_name_of(owner, name).len() as int)
            == name,
{
    assert(full_name_of(owner, name).subrange(0, owner.len() as int) =~= owner);
    assert(full_name_of(owner, name).subrange(
        owner.len() as int + 1,
        full_name_of(owner, name).len() as int,
    ) =~= name);
}

} // verus!
