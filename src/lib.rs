//! The repository directory of a GitHub merge bot: discovery of the
//! repositories that the bot's installations grant, one state bundle per
//! repository, and a registry that readers consult while it is replaced.

pub mod directory;
pub mod discovery;
pub mod repo_name;
pub mod repository;
pub mod signing_key;

pub use repo_name::GithubRepoName;
pub use discovery::{repository_identity, DiscoveryError, DiscoveryPass, RepositoryFailure};
pub use repository::{RepositoryMap, RepositoryState};
pub use signing_key::{app_signing_key, KeyError};
pub use directory::{
    base_github_html_url, base_github_url, GithubAppState, GithubUser, PullRequestComment,
};
