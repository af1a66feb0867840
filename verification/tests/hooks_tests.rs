use github_submodule_hook::hooks::github::{
    GithubWebhook, GithubWebhookPullRequest, GithubWebhookPullRequestBase, GithubWebhookPullRequestHead,
    GithubWebhookRepository, GithubWebhookRepositoryOwner,
};
use github_submodule_hook::hooks::gitlab::{
    GitlabWebhook, GitlabWebhookObjectAttributes, GitlabWebhookObjectAttributesTarget, GitlabWebhookProject,
};
use github_submodule_hook::hooks::hooks::{BranchHook, HookRegistery, HookTrigger, OwnerHook, RepoHooh, ToHookTrigger};
use github_submodule_hook::submodule::SubmoduleUpdateData;
use github_submodule_hook::text::split_path_with_ns;

fn repo(full_name: &str) -> GithubWebhookRepository {
    GithubWebhookRepository {
        name: "repo".to_string(),
        owner: GithubWebhookRepositoryOwner { name: Some("owner".to_string()) },
        full_name: full_name.to_string(),
    }
}

fn push(reference: Option<&str>, hash: Option<&str>, deleted: Option<bool>) -> GithubWebhook {
    GithubWebhook {
        hash: hash.map(|s| s.to_string()),
        branch: reference.map(|s| s.to_string()),
        repository: repo("owner/repo"),
        pull_request: None,
        deleted,
    }
}

fn pull_request(merged: bool, merge_commit_sha: Option<&str>) -> GithubWebhook {
    GithubWebhook {
        hash: Some("ignored".to_string()),
        branch: Some("refs/heads/feature".to_string()),
        repository: repo("owner/repo"),
        pull_request: Some(GithubWebhookPullRequest {
            base: GithubWebhookPullRequestBase { branch: "main".to_string() },
            head: GithubWebhookPullRequestHead {
                sha: "headsha".to_string(),
                merge_commit_sha: merge_commit_sha.map(|s| s.to_string()),
            },
            merged,
        }),
        deleted: None,
    }
}

fn parts(t: &HookTrigger) -> (&str, &str, &str, &str) {
    (t.owner.as_str(), t.repo.as_str(), t.branch.as_str(), t.hash.as_str())
}

#[test]
fn github_push_yields_branch_and_commit() {
    let t = push(Some("refs/heads/master"), Some("abc123"), Some(false)).as_hook_trigger().unwrap();
    assert_eq!(parts(&t), ("owner", "repo", "master", "abc123"));
}

#[test]
fn github_push_without_deleted_flag_counts() {
    let t = push(Some("refs/heads/dev/x"), Some("abc"), None).as_hook_trigger().unwrap();
    assert_eq!(parts(&t), ("owner", "repo", "dev/x", "abc"));
}

#[test]
fn github_deleted_branch_yields_nothing() {
    assert!(push(Some("refs/heads/master"), Some("abc"), Some(true)).as_hook_trigger().is_none());
}

#[test]
fn github_tag_push_yields_nothing() {
    assert!(push(Some("refs/tags/v1"), Some("abc"), None).as_hook_trigger().is_none());
}

#[test]
fn github_push_without_ref_or_hash_yields_nothing() {
    assert!(push(None, Some("abc"), None).as_hook_trigger().is_none());
    assert!(push(Some("refs/heads/master"), None, None).as_hook_trigger().is_none());
}

#[test]
fn github_merged_pull_request_yields_base_and_merge_commit() {
    let t = pull_request(true, Some("merge1")).as_hook_trigger().unwrap();
    assert_eq!(parts(&t), ("owner", "repo", "main", "merge1"));
}

#[test]
fn github_open_pull_request_yields_nothing() {
    assert!(pull_request(false, Some("merge1")).as_hook_trigger().is_none());
    assert!(pull_request(true, None).as_hook_trigger().is_none());
}

fn gitlab(kind: &str, attrs: Option<(&str, &str)>, hash: Option<&str>, reference: Option<&str>) -> GitlabWebhook {
    GitlabWebhook {
        object_kind: kind.to_string(),
        hash: hash.map(|s| s.to_string()),
        branch: reference.map(|s| s.to_string()),
        project: GitlabWebhookProject { path_with_namespace: "group/sub/project".to_string() },
        object_attributes: attrs.map(|(action, target_branch)| GitlabWebhookObjectAttributes {
            merge_commit_sha: "mergesha".to_string(),
            target: GitlabWebhookObjectAttributesTarget { path_with_namespace: "team/app".to_string() },
            action: action.to_string(),
            target_branch: target_branch.to_string(),
        }),
    }
}

#[test]
fn gitlab_push_yields_branch_and_commit() {
    let t = gitlab("push", None, Some("c1"), Some("refs/heads/main")).as_hook_trigger().unwrap();
    assert_eq!(parts(&t), ("group/sub", "project", "main", "c1"));
}

#[test]
fn gitlab_push_needs_hash_ref_and_branch_ref() {
    assert!(gitlab("push", None, None, Some("refs/heads/main")).as_hook_trigger().is_none());
    assert!(gitlab("push", None, Some("c1"), None).as_hook_trigger().is_none());
    assert!(gitlab("push", None, Some("c1"), Some("refs/tags/v1")).as_hook_trigger().is_none());
    assert!(gitlab("tag_push", None, Some("c1"), Some("refs/heads/main")).as_hook_trigger().is_none());
}

#[test]
fn gitlab_merge_yields_target_branch_and_merge_commit() {
    let t = gitlab("merge_request", Some(("merge", "release")), None, None).as_hook_trigger().unwrap();
    assert_eq!(parts(&t), ("team", "app", "release", "mergesha"));
}

#[test]
fn gitlab_other_merge_request_actions_yield_nothing() {
    assert!(gitlab("merge_request", Some(("open", "release")), None, None).as_hook_trigger().is_none());
    assert!(gitlab("push", Some(("merge", "release")), Some("c1"), Some("refs/heads/main")).as_hook_trigger().is_none());
}

#[test]
fn split_path_with_namespace() {
    assert_eq!(split_path_with_ns("owner/repo"), ("owner".to_string(), "repo".to_string()));
    assert_eq!(split_path_with_ns("a/b/c"), ("a/b".to_string(), "c".to_string()));
    assert_eq!(split_path_with_ns("alone"), ("".to_string(), "alone".to_string()));
    assert_eq!(split_path_with_ns("trailing/"), ("trailing".to_string(), "".to_string()));
}

fn data(owner: &str, repo: &str, branch: &str, submodule: &str) -> SubmoduleUpdateData {
    SubmoduleUpdateData {
        owner: owner.to_string(),
        repo: repo.to_string(),
        branch: branch.to_string(),
        submodule: submodule.to_string(),
    }
}

pub fn sample_hooks() -> HookRegistery {
    let mut repo_hooks = RepoHooh::new();
    repo_hooks.insert(
        "main".to_string(),
        BranchHook::from_vec(vec![data("o2", "r2", "b2", "lib"), data("o3", "r3", "b3", "vendor")]),
    );
    let mut owner_hooks = OwnerHook::new();
    owner_hooks.insert("app".to_string(), repo_hooks);
    let mut registry = HookRegistery::new();
    registry.insert("team".to_string(), owner_hooks);
    registry
}

#[test]
fn hook_registry_lookup() {
    let registry = sample_hooks();
    let hooks = registry.get("team", "app", "main").unwrap();
    assert_eq!(hooks.len(), 2);
    assert_eq!(hooks[0].submodule, "lib");
    assert_eq!(hooks[1].owner, "o3");
    assert!(registry.get("team", "app", "dev").is_none());
    assert!(registry.get("team", "other", "main").is_none());
    assert!(registry.get("other", "app", "main").is_none());
}
