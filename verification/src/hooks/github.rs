//! The payload of a GitHub webhook, and the trigger it yields.
//!
//! A push yields its branch and the commit it moved to, unless it deleted the
//! branch or did not move a branch (`refs/heads/...`). A pull request yields
//! its base branch and merge commit once it is merged.

use vstd::prelude::*;
use crate::hooks::hooks::{HookTrigger, HookTriggerView, ToHookTrigger, trigger_view};
use crate::text::{
    spec_split_path_with_ns, spec_strip_prefix, split_path_with_ns, strip_prefix,
    is_namespace_split, lemma_split_path_with_ns, lemma_strip_prefix,
};

verus! {

/// A GitHub webhook payload, push or pull request.
pub struct GithubWebhook {
    /// The commit the reference was updated to (`after`).
    pub hash: Option<String>,
    /// The reference that was updated (`ref`), such as `refs/heads/master`.
    pub branch: Option<String>,
    pub repository: GithubWebhookRepository,
    pub pull_request: Option<GithubWebhookPullRequest>,
    pub deleted: Option<bool>,
}

pub struct GithubWebhookRepository {
    pub name: String,
    pub owner: GithubWebhookRepositoryOwner,
    /// `owner/name`.
    pub full_name: String,
}

pub struct GithubWebhookRepositoryOwner {
    pub name: Option<String>,
}

pub struct GithubWebhookPullRequest {
    pub base: GithubWebhookPullRequestBase,
    pub head: GithubWebhookPullRequestHead,
    pub merged: bool,
}

pub struct GithubWebhookPullRequestHead {
    pub sha: String,
    pub merge_commit_sha: Option<String>,
}

pub struct GithubWebhookPullRequestBase {
    /// The branch the pull request merges into (`ref`).
    pub branch: String,
}

/// The trigger of a GitHub payload, if it moved a branch.
pub open spec fn spec_github_trigger(w: GithubWebhook) -> Option<HookTriggerView> {
    let (owner, repo) = spec_split_path_with_ns(w.repository.full_name@);
    match w.pull_request {
        Some(pr) => if !pr.merged {
            None
        } else {
            match pr.head.merge_commit_sha {
                Some(hash) => Some(
                    HookTriggerView { owner, repo, branch: pr.base.branch@, hash: hash@ },
                ),
                None => None,
            }
        },
        None => if w.deleted == Some(true) {
            None
        } else {
            match w.branch {
                Some(reference) => match spec_strip_prefix(reference@, "refs/heads/"@) {
                    Some(branch) => match w.hash {
                        Some(hash) => Some(HookTriggerView { owner, repo, branch, hash: hash@ }),
                        None => None,
                    },
                    None => None,
                },
                None => None,
            }
        },
    }
}

/// What a GitHub payload moves. A pull request yields a trigger exactly when
/// it is merged and has a merge commit: its base branch at that commit. A push
/// yields one exactly when it did not delete the branch and carries a commit
/// and a reference `refs/heads/{branch}`: that branch at that commit. The
/// owner and repository are the two parts of the repository's full name.
pub proof fn lemma_github_trigger(w: GithubWebhook)
    ensures
        match w.pull_request {
            Some(pr) => {
                &&& (spec_github_trigger(w) is Some) == (pr.merged && pr.head.merge_commit_sha is Some)
                &&& spec_github_trigger(w) matches Some(t) ==> t.branch == pr.base.branch@ && t.hash
                    == pr.head.merge_commit_sha->0@
            },
            None => {
                &&& (spec_github_trigger(w) is Some) == (w.deleted != Some(true) && w.hash is Some
                    && w.branch is Some && exists|b: Seq<char>| w.branch->0@ == "refs/heads/"@ + b)
                &&& spec_github_trigger(w) matches Some(t) ==> w.hash->0@ == t.hash && w.branch->0@
                    == "refs/heads/"@ + t.branch
            },
        },
        spec_github_trigger(w) matches Some(t) ==> is_namespace_split(
            w.repository.full_name@,
            t.owner,
            t.repo,
        ),
{
    lemma_split_path_with_ns(w.repository.full_name@);
    match w.branch {
        Some(reference) => {
            let prefix = "refs/heads/"@;
            if exists|b: Seq<char>| reference@ == prefix + b {
                let b = choose|b: Seq<char>| reference@ == prefix + b;
                lemma_strip_prefix(reference@, prefix, b);
            }
            match spec_strip_prefix(reference@, prefix) {
                Some(b) => lemma_strip_prefix(reference@, prefix, b),
                None => {},
            }
        },
        None => {},
    }
}

impl ToHookTrigger for GithubWebhook {
    fn as_hook_trigger(self) -> (res: Option<HookTrigger>)
        ensures
            trigger_view(res) == spec_github_trigger(self),
    {
        let ghost w = self;
        match self.pull_request {
            Some(pr) => {
                // Github pushes the merge commit too; the pull request only
                // counts once merged.
                if !pr.merged {
                    return None;
                }
                let hash = match pr.head.merge_commit_sha {
                    Some(h) => h,
                    None => return None,
                };
                let (owner, repo) = split_path_with_ns(self.repository.full_name.as_str());
                Some(HookTrigger { owner, repo, branch: pr.base.branch, hash })
            },
            None => {
                let deleted = match self.deleted {
                    Some(d) => d,
                    None => false,
                };
                if deleted {
                    return None;
                }
                let branch = match self.branch {
                    Some(b) => match strip_prefix(b.as_str(), "refs/heads/") {
                        Some(s) => s,
                        None => return None,
                    },
                    None => return None,
                };
                let (owner, repo) = split_path_with_ns(self.repository.full_name.as_str());
                let hash = match self.hash {
                    Some(h) => h,
                    None => return None,
                };
                Some(HookTrigger { owner, repo, branch, hash })
            },
        }
    }
}

} // verus!
