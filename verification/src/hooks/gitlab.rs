//! The payload of a GitLab webhook, and the trigger it yields.
//!
//! A push event yields its branch and the commit it moved to, when it moved a
//! branch (`refs/heads/...`). A merge request event yields its target branch
//! and merge commit when its action is `merge`.

use vstd::prelude::*;
use crate::hooks::hooks::{HookTrigger, HookTriggerView, ToHookTrigger, trigger_view};
use crate::text::{
    spec_split_path_with_ns, spec_strip_prefix, split_path_with_ns, strip_prefix, same_text,
    is_namespace_split, lemma_split_path_with_ns, lemma_strip_prefix,
};

verus! {

/// A GitLab webhook payload, push or merge request.
pub struct GitlabWebhook {
    /// `push`, `merge_request`, ...
    pub object_kind: String,
    /// The commit the reference was updated to (`after`).
    pub hash: Option<String>,
    /// The reference that was updated (`ref`), such as `refs/heads/master`.
    pub branch: Option<String>,
    pub project: GitlabWebhookProject,
    pub object_attributes: Option<GitlabWebhookObjectAttributes>,
}

pub struct GitlabWebhookProject {
    pub path_with_namespace: String,
}

pub struct GitlabWebhookObjectAttributes {
    pub merge_commit_sha: String,
    pub target: GitlabWebhookObjectAttributesTarget,
    pub action: String,
    pub target_branch: String,
}

pub struct GitlabWebhookObjectAttributesTarget {
    pub path_with_namespace: String,
}

/// The trigger of a GitLab payload, if it moved a branch.
pub open spec fn spec_gitlab_trigger(w: GitlabWebhook) -> Option<HookTriggerView> {
    match w.object_attributes {
        Some(attrs) => if w.object_kind@ != "merge_request"@ || attrs.action@ != "merge"@ {
            None
        } else {
            let (owner, repo) = spec_split_path_with_ns(attrs.target.path_with_namespace@);
            Some(
                HookTriggerView {
                    owner,
                    repo,
                    branch: attrs.target_branch@,
                    hash: attrs.merge_commit_sha@,
                },
            )
        },
        None => if w.object_kind@ != "push"@ {
            None
        } else {
            let (owner, repo) = spec_split_path_with_ns(w.project.path_with_namespace@);
            match (w.hash, w.branch) {
                (Some(hash), Some(reference)) => match spec_strip_prefix(
                    reference@,
                    "refs/heads/"@,
                ) {
                    Some(branch) => Some(HookTriggerView { owner, repo, branch, hash: hash@ }),
                    None => None,
                },
                _ => None,
            }
        },
    }
}

/// What a GitLab payload moves. With merge request attributes, a trigger comes
/// exactly when the event is a `merge_request` whose action is `merge`, and it
/// is the target branch at the merge commit, in the target project. Without
/// them, a trigger comes exactly when the event is a `push` with a commit and
/// a reference `refs/heads/{branch}`, and it is that branch at that commit, in
/// the pushed project. The owner and repository are the namespace and name of
/// the project's path.
pub proof fn lemma_gitlab_trigger(w: GitlabWebhook)
    ensures
        match w.object_attributes {
            Some(a) => {
                &&& (spec_gitlab_trigger(w) is Some) == (w.object_kind@ == "merge_request"@
                    && a.action@ == "merge"@)
                &&& spec_gitlab_trigger(w) matches Some(t) ==> t.branch == a.target_branch@
                    && t.hash == a.merge_commit_sha@ && is_namespace_split(
                    a.target.path_with_namespace@,
                    t.owner,
                    t.repo,
                )
            },
            None => {
                &&& (spec_gitlab_trigger(w) is Some) == (w.object_kind@ == "push"@ && w.hash is Some
                    && w.branch is Some && exists|b: Seq<char>|
                    w.branch->0@ == "refs/heads/"@ + b)
                &&& spec_gitlab_trigger(w) matches Some(t) ==> w.hash->0@ == t.hash
                    && w.branch->0@ == "refs/heads/"@ + t.branch && is_namespace_split(
                    w.project.path_with_namespace@,
                    t.owner,
                    t.repo,
                )
            },
        },
{
    match w.object_attributes {
        Some(a) => {
            lemma_split_path_with_ns(a.target.path_with_namespace@);
        },
        None => {
            lemma_split_path_with_ns(w.project.path_with_namespace@);
            match w.branch {
                Some(reference) => {
                    let prefix = "refs/heads/"@;
                    if exists|b: Seq<char>| reference@ == prefix + b {
                        let b = choose|b: Seq<char>| reference@ == prefix + b;
                        lemma_strip_prefix(reference@, prefix, b);
                    }
                    match spec_strip_prefix(reference@, prefix) {
                        Some(b) => lemma_strip_prefix(reference@, prefix, b),
                        None => {},
                    }
                },
                None => {},
            }
        },
    }
}

impl ToHookTrigger for GitlabWebhook {
    fn as_hook_trigger(self) -> (res: Option<HookTrigger>)
        ensures
            trigger_view(res) == spec_gitlab_trigger(self),
    {
        match self.object_attributes {
            Some(attrs) => {
                // Merge event
                if !same_text(self.object_kind.as_str(), "merge_request") || !same_text(
                    attrs.action.as_str(),
                    "merge",
                ) {
                    return None;
                }
                let (owner, repo) = split_path_with_ns(attrs.target.path_with_namespace.as_str());
                Some(
                    HookTrigger {
                        owner,
                        repo,
                        branch: attrs.target_branch,
                        hash: attrs.merge_commit_sha,
                    },
                )
            },
            None => {
                // Push event
                if !same_text(self.object_kind.as_str(), "push") {
                    return None;
                }
                let (owner, repo) = split_path_with_ns(self.project.path_with_namespace.as_str());
                let hash = match self.hash {
                    Some(h) => h,
                    None => return None,
                };
                let reference = match self.branch {
                    Some(b) => b,
                    None => return None,
                };
                let branch = match strip_prefix(reference.as_str(), "refs/heads/") {
                    Some(b) => b,
                    None => return None,
                };
                Some(HookTrigger { owner, repo, branch, hash })
            },
        }
    }
}

} // verus!
