use vstd::prelude::*;
use octocrab::models::RunId;
use crate::database::{WorkflowStatus, WorkflowType};
use crate::github::{CommitSha, GithubRepoName, GithubUser, PullRequestNumber};

verus! {

/// Something that happened on the hosting platform or its CI, in a form that does not
/// depend on the wire format it arrived in.
#[derive(Debug)]
pub enum BorsEvent {
    /// A comment was posted on a pull request.
    Comment(PullRequestComment),
    /// A workflow run on the platform's CI, or a check run of an external CI system, has started.
    WorkflowStarted(WorkflowStarted),
    /// A workflow run on the platform's CI, or a check run of an external CI system, has completed.
    WorkflowCompleted(WorkflowCompleted),
    /// A check suite has completed, on the platform's CI or on an external CI system.
    CheckSuiteCompleted(CheckSuiteCompleted),
    /// The bot's access to, or configuration of, some repository may have changed.
    InstallationsChanged,
    /// Periodic tick that lets handlers re-evaluate state, e.g. timeouts.
    Refresh,
}

#[derive(Debug)]
pub struct PullRequestComment {
    pub repository: GithubRepoName,
    pub author: GithubUser,
    pub pr_number: PullRequestNumber,
    pub text: String,
}

#[derive(Debug)]
pub struct WorkflowStarted {
    pub repository: GithubRepoName,
    pub name: String,
    pub branch: String,
    pub commit_sha: CommitSha,
    pub run_id: RunId,
    pub workflow_type: WorkflowType,
    pub url: String,
}

#[derive(Debug)]
pub struct WorkflowCompleted {
    pub repository: GithubRepoName,
    pub branch: String,
    pub commit_sha: CommitSha,
    pub run_id: RunId,
    pub status: WorkflowStatus,
}

#[derive(Debug)]
pub struct CheckSuiteCompleted {
    pub repository: GithubRepoName,
    pub branch: String,
    pub commit_sha: CommitSha,
}

impl PullRequestComment {
    pub fn new(
        repository: GithubRepoName,
        author: GithubUser,
        pr_number: PullRequestNumber,
        text: String,
    ) -> (r: PullRequestComment)
        ensures
            r.repository == repository,
            r.author == author,
            r.pr_number == pr_number,
            r.text == text,
    {
        PullRequestComment { repository, author, pr_number, text }
    }
}

impl WorkflowStarted {
    pub fn new(
        repository: GithubRepoName,
        name: String,
        branch: String,
        commit_sha: CommitSha,
        run_id: RunId,
        workflow_type: WorkflowType,
        url: String,
    ) -> (r: WorkflowStarted)
        ensures
            r.repository == repository,
            r.name == name,
            r.branch == branch,
            r.commit_sha == commit_sha,
            r.run_id == run_id,
            r.workflow_type == workflow_type,
            r.url == url,
    {
        WorkflowStarted { repository, name, branch, commit_sha, run_id, workflow_type, url }
    }
}

impl WorkflowCompleted {
    pub fn new(
        repository: GithubRepoName,
        branch: String,
        commit_sha: CommitSha,
        run_id: RunId,
        status: WorkflowStatus,
    ) -> (r: WorkflowCompleted)
        ensures
            r.repository == repository,
            r.branch == branch,
            r.commit_sha == commit_sha,
            r.run_id == run_id,
            r.status == status,
    {
        WorkflowCompleted { repository, branch, commit_sha, run_id, status }
    }
}

impl CheckSuiteCompleted {
    pub fn new(repository: GithubRepoName, branch: String, commit_sha: CommitSha) -> (r:
        CheckSuiteCompleted)
        ensures
            r.repository == repository,
            r.branch == branch,
            r.commit_sha == commit_sha,
    {
        CheckSuiteCompleted { repository, branch, commit_sha }
    }
}

} // verus!
