use github_submodule_hook::access::permissions::{BranchPerm, OwnerPerm, Permissions, RepoPerm, UserPerm};
use github_submodule_hook::access::token::storable_token;
use github_submodule_hook::access::users::{user_file_line, PermissionRegistery, UserToken};
use github_submodule_hook::cli::{Cli, Commands, ConfigCandidates};
use github_submodule_hook::config::{default_user_file, user_file_path};
use github_submodule_hook::global_state::{plan_hooks, HookPlan};
use github_submodule_hook::hooks::github::{GithubWebhook, GithubWebhookRepository, GithubWebhookRepositoryOwner};
use github_submodule_hook::hooks::gitlab::{GitlabWebhook, GitlabWebhookProject};
use github_submodule_hook::hooks::hooks::{BranchHook, HookRegistery, HookTrigger, OwnerHook, RepoHooh};
use github_submodule_hook::server::server::{
    github_webhook_decision, gitlab_webhook_decision, update_decision, update_outcome_message, UpdateDecision,
    WebhookDecision,
};
use github_submodule_hook::server::types::OptionalJson;
use github_submodule_hook::submodule::{SubmoduleUpdate, SubmoduleUpdateData, UpdateAction, UpdateState};
use github_submodule_hook::text::is_whitespace;
use github_submodule_hook::text::{same_text, strip_prefix};

const TOKEN: &str = "token-of-user1";

fn grant(perms: &mut Permissions, user: &str, owner: &str, repo: &str, branch: &str, subs: &[&str]) {
    let mut b = BranchPerm::new();
    for s in subs {
        b.insert(s.to_string());
    }
    let mut r = RepoPerm::new();
    r.insert(branch.to_string(), b);
    let mut o = OwnerPerm::new();
    o.insert(repo.to_string(), r);
    let mut u = UserPerm::new();
    u.insert(owner.to_string(), o);
    perms.insert(user.to_string(), u);
}

fn registry() -> PermissionRegistery {
    let mut perms = Permissions::new();
    grant(&mut perms, "user1", "o2", "r2", "b2", &["lib"]);
    let text = user_file_line("user1", &storable_token(TOKEN));
    PermissionRegistery { users: UserToken::from_str(&text), permissions: perms }
}

fn data(owner: &str, repo: &str, branch: &str, submodule: &str) -> SubmoduleUpdateData {
    SubmoduleUpdateData {
        owner: owner.to_string(),
        repo: repo.to_string(),
        branch: branch.to_string(),
        submodule: submodule.to_string(),
    }
}

fn hooks() -> HookRegistery {
    let mut repo_hooks = RepoHooh::new();
    repo_hooks.insert(
        "main".to_string(),
        BranchHook::from_vec(vec![data("o2", "r2", "b2", "lib"), data("o3", "r3", "b3", "vendor")]),
    );
    let mut owner_hooks = OwnerHook::new();
    owner_hooks.insert("app".to_string(), repo_hooks);
    let mut registry = HookRegistery::new();
    registry.insert("team".to_string(), owner_hooks);
    registry
}

fn trigger(branch: &str) -> HookTrigger {
    HookTrigger { owner: "team".to_string(), repo: "app".to_string(), branch: branch.to_string(), hash: "h".to_string() }
}

#[test]
fn plan_keeps_only_allowed_hooks_in_order() {
    let plan = plan_hooks(&registry(), &hooks(), TOKEN, &trigger("main"));
    match &plan {
        HookPlan::Update(list) => {
            assert_eq!(list.len(), 1);
            let (state, action) = list[0].start();
            match action {
                UpdateAction::FetchSubmoduleSha { owner, repo, path, branch } => {
                    assert_eq!(
                        (owner.as_str(), repo.as_str(), path.as_str(), branch.as_str()),
                        ("o2", "r2", "lib", "b2")
                    );
                }
                _ => panic!("expected a fetch"),
            }
            let (_, action) = list[0].step(state, Ok("h".to_string()));
            assert!(matches!(action, UpdateAction::AlreadyUpToDate));
        }
        _ => panic!("expected an update"),
    }
    assert_eq!(plan.message(), "Ok");
}

#[test]
fn plan_for_unknown_branch_does_nothing() {
    let plan = plan_hooks(&registry(), &hooks(), TOKEN, &trigger("dev"));
    assert!(matches!(plan, HookPlan::NothingToBeDone));
    assert_eq!(plan.message(), "Nothing to be done");
}

#[test]
fn plan_for_unknown_token_is_refused() {
    let plan = plan_hooks(&registry(), &hooks(), "wrong", &trigger("main"));
    assert!(matches!(plan, HookPlan::UserNotFound));
    assert_eq!(plan.message(), "User not found");
}

#[test]
fn update_request_decisions() {
    let reg = registry();
    let missing = update_decision(&reg, None, "o2", "r2", "b2", "lib");
    assert!(matches!(missing, UpdateDecision::MissingToken));
    assert_eq!(missing.message(), "Missing token");
    let refused = update_decision(&reg, Some(TOKEN), "o2", "r2", "b2", "other");
    assert!(matches!(refused, UpdateDecision::NotAllowed));
    assert_eq!(refused.message(), "You are not allowed to do this action");
    assert!(matches!(update_decision(&reg, Some("bad"), "o2", "r2", "b2", "lib"), UpdateDecision::NotAllowed));
    assert!(matches!(update_decision(&reg, Some(TOKEN), "o2", "r2", "b2", "lib"), UpdateDecision::Proceed));
    assert_eq!(update_outcome_message(true), "Update Success");
    assert_eq!(update_outcome_message(false), "Error on update");
}

fn github_push() -> GithubWebhook {
    GithubWebhook {
        hash: Some("c1".to_string()),
        branch: Some("refs/heads/main".to_string()),
        repository: GithubWebhookRepository {
            name: "app".to_string(),
            owner: GithubWebhookRepositoryOwner { name: None },
            full_name: "team/app".to_string(),
        },
        pull_request: None,
        deleted: None,
    }
}

#[test]
fn github_webhook_decisions() {
    let d = github_webhook_decision(None, OptionalJson { data: Some(github_push()) });
    assert!(matches!(d, WebhookDecision::MissingToken));
    assert_eq!(d.message(), "Missing token");
    let d = github_webhook_decision(Some("t".to_string()), OptionalJson { data: None });
    assert!(matches!(d, WebhookDecision::NothingToDo));
    assert_eq!(d.message(), "Nothing to do");
    let mut deleted = github_push();
    deleted.deleted = Some(true);
    assert!(matches!(
        github_webhook_decision(Some("t".to_string()), OptionalJson { data: Some(deleted) }),
        WebhookDecision::NothingToDo
    ));
    match github_webhook_decision(Some("t".to_string()), OptionalJson { data: Some(github_push()) }) {
        WebhookDecision::Trigger { token, trigger } => {
            assert_eq!(token, "t");
            assert_eq!(
                (trigger.owner.as_str(), trigger.repo.as_str(), trigger.branch.as_str(), trigger.hash.as_str()),
                ("team", "app", "main", "c1")
            );
        }
        _ => panic!("expected a trigger"),
    }
}

#[test]
fn gitlab_webhook_decisions() {
    let push = GitlabWebhook {
        object_kind: "push".to_string(),
        hash: Some("c2".to_string()),
        branch: Some("refs/heads/main".to_string()),
        project: GitlabWebhookProject { path_with_namespace: "team/app".to_string() },
        object_attributes: None,
    };
    assert!(matches!(gitlab_webhook_decision(None, OptionalJson { data: None }), WebhookDecision::MissingToken));
    match gitlab_webhook_decision(Some("t".to_string()), OptionalJson { data: Some(push) }) {
        WebhookDecision::Trigger { token, trigger } => {
            assert_eq!(token, "t");
            assert_eq!(trigger.hash, "c2");
            assert_eq!(trigger.branch, "main");
        }
        _ => panic!("expected a trigger"),
    }
}

fn request() -> SubmoduleUpdate {
    SubmoduleUpdate::new("team", "app", "main", "libs/core", "newsha")
}

#[test]
fn submodule_update_steps() {
    let req = request();
    let (state, action) = req.start();
    match action {
        UpdateAction::FetchSubmoduleSha { owner, repo, path, branch } => {
            assert_eq!((owner.as_str(), repo.as_str(), path.as_str(), branch.as_str()), ("team", "app", "libs/core", "main"));
        }
        _ => panic!("expected a fetch"),
    }
    let (state, action) = req.step(state, Ok("oldsha".to_string()));
    match action {
        UpdateAction::FetchBranchHead { owner, repo, branch } => {
            assert_eq!((owner.as_str(), repo.as_str(), branch.as_str()), ("team", "app", "main"));
        }
        _ => panic!("expected a branch read"),
    }
    let (state, action) = req.step(state, Ok("parent".to_string()));
    match action {
        UpdateAction::CreateTree { base_tree, path, mode, object_type, sha, .. } => {
            assert_eq!((base_tree.as_str(), path.as_str(), sha.as_str()), ("parent", "libs/core", "newsha"));
            assert_eq!((mode.as_str(), object_type.as_str()), ("160000", "commit"));
        }
        _ => panic!("expected a tree"),
    }
    let (state, action) = req.step(state, Ok("tree1".to_string()));
    match action {
        UpdateAction::CreateCommit { message, parent, tree, .. } => {
            assert_eq!(message, "Automatic update submodule libs/core to hash 'newsha'");
            assert_eq!(parent, "parent");
            assert_eq!(tree, "tree1");
        }
        _ => panic!("expected a commit"),
    }
    let (state, action) = req.step(state, Ok("commit1".to_string()));
    match action {
        UpdateAction::UpdateRef { owner, reference, sha, .. } => {
            assert_eq!(owner, "team");
            assert_eq!(reference, "heads/main");
            assert_eq!(sha, "commit1");
        }
        _ => panic!("expected a reference update"),
    }
    let (state, action) = req.step(state, Ok("refs/heads/main".to_string()));
    assert!(matches!(action, UpdateAction::Updated));
    let (_, action) = req.step(state, Ok("more".to_string()));
    assert!(matches!(action, UpdateAction::Abort));
}

#[test]
fn submodule_update_already_current() {
    let req = request();
    let (state, _) = req.start();
    let (state, action) = req.step(state, Ok("newsha".to_string()));
    assert!(matches!(action, UpdateAction::AlreadyUpToDate));
    assert!(matches!(state, UpdateState::Finished));
}

#[test]
fn submodule_update_failures_abort() {
    let req = request();
    // A failed read of the submodule.
    let (state, _) = req.start();
    let (state, action) = req.step(state, Err(()));
    assert!(matches!(action, UpdateAction::Abort));
    let (_, action) = req.step(state, Ok("x".to_string()));
    assert!(matches!(action, UpdateAction::Abort));
    // A failed tree creation: no commit, no reference update.
    let (state, _) = req.start();
    let (state, _) = req.step(state, Ok("oldsha".to_string()));
    let (state, _) = req.step(state, Ok("parent".to_string()));
    let (state, action) = req.step(state, Err(()));
    assert!(matches!(action, UpdateAction::Abort));
    assert!(matches!(state, UpdateState::Finished));
    // A failed commit creation: the reference is not moved.
    let (state, _) = req.start();
    let (state, _) = req.step(state, Ok("oldsha".to_string()));
    let (state, _) = req.step(state, Ok("parent".to_string()));
    let (state, _) = req.step(state, Ok("tree".to_string()));
    let (_, action) = req.step(state, Err(()));
    assert!(matches!(action, UpdateAction::Abort));
}

#[test]
fn user_file_beside_config_file() {
    assert_eq!(user_file_path("/etc/hook/config.json", "users.txt"), "/etc/hook/users.txt");
    assert_eq!(user_file_path("config.json", "users.txt"), "users.txt");
    assert_eq!(user_file_path("/config.json", "users.txt"), "/users.txt");
    assert_eq!(user_file_path("a/b/config.json", "sub/users.txt"), "a/b/sub/users.txt");
    assert_eq!(user_file_path("a/b/config.json", "/var/users.txt"), "/var/users.txt");
}

fn candidates() -> ConfigCandidates {
    ConfigCandidates { current_dir: None, env_var: None, home_dir: None, etc_dir: None, exe_dir: None }
}

#[test]
fn config_path_priority() {
    let server = || Commands::Server { port: None, host: None };
    let mut c = candidates();
    c.exe_dir = Some("/bin/config.json".to_string());
    c.etc_dir = Some("/etc/github_submodule_hook/config.json".to_string());
    assert_eq!(Cli::new(None, server()).select_config_path(&c).as_deref(), Some("/etc/github_submodule_hook/config.json"));
    c.home_dir = Some("/home/u/.github_submodule_hook/config.json".to_string());
    c.env_var = Some("/from/env.json".to_string());
    assert_eq!(Cli::new(None, server()).select_config_path(&c).as_deref(), Some("/from/env.json"));
    c.current_dir = Some("/cwd/config.json".to_string());
    assert_eq!(Cli::new(None, server()).select_config_path(&c).as_deref(), Some("/cwd/config.json"));
    assert_eq!(
        Cli::new(Some("given.json".to_string()), server()).select_config_path(&c).as_deref(),
        Some("given.json")
    );
    assert_eq!(Cli::new(None, server()).select_config_path(&candidates()), None);
}

#[test]
fn default_user_file_name() {
    assert_eq!(default_user_file(), "users.txt");
}

#[test]
fn text_helpers() {
    assert!(same_text("abc", "abc"));
    assert!(!same_text("abc", "abd"));
    assert!(!same_text("abc", "ab"));
    assert_eq!(strip_prefix("refs/heads/main", "refs/heads/").as_deref(), Some("main"));
    assert_eq!(strip_prefix("refs/head", "refs/heads/"), None);
    assert_eq!(strip_prefix("héllo", "hé").as_deref(), Some("llo"));
}

#[test]
fn whitespace_is_the_unicode_property() {
    for c in ['\t', '\n', '\u{b}', '\u{c}', '\r', ' ', '\u{85}', '\u{a0}', '\u{1680}', '\u{2000}', '\u{200a}',
        '\u{2028}', '\u{2029}', '\u{202f}', '\u{205f}', '\u{3000}'] {
        assert!(is_whitespace(c));
        assert!(c.is_whitespace());
    }
    for c in ['a', '=', '\u{200b}', '\u{feff}', '\u{180e}', '\u{8}', '\u{e}', '\u{1f}'] {
        assert!(!is_whitespace(c));
        assert_eq!(is_whitespace(c), c.is_whitespace());
    }
}
