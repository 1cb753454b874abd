use vstd::prelude::*;

verus! {

/// Identifier of a workflow run, as the hosting platform assigns it.
#[verifier::external_type_specification]
#[verifier::external_body]
pub struct ExRunId(octocrab::models::RunId);

/// A repository on the hosting platform, `owner/name`.
#[derive(Clone, Debug, PartialEq, Eq, Hash)]
pub struct GithubRepoName {
    pub owner: String,
    pub name: String,
}

impl GithubRepoName {
    pub fn new(owner: String, name: String) -> (r: GithubRepoName)
        ensures
            r.owner@ == owner@,
            r.name@ == name@,
    {
        GithubRepoName { owner, name }
    }
}

/// A user account on the hosting platform.
#[derive(Clone, Debug, PartialEq, Eq)]
pub struct GithubUser {
    pub username: String,
}

impl GithubUser {
    pub fn new(username: String) -> (r: GithubUser)
        ensures
            r.username@ == username@,
    {
        GithubUser { username }
    }
}

/// Number of a pull request within its repository.
#[derive(Clone, Copy, Debug, PartialEq, Eq, Hash, Structural)]
pub struct PullRequestNumber(pub u64);

/// Hash of a commit. Opaque to this library: it is carried, never interpreted.
#[derive(Clone, Debug, PartialEq, Eq, Hash)]
pub struct CommitSha(pub String);

} // verus!
