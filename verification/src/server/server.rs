//! The decisions the server takes for each request before any call to the
//! git host: whether an explicit update is authorized, and what a webhook
//! asks for.

use vstd::prelude::*;
use crate::access::permissions::spec_allowed;
use crate::access::token::spec_storable_token;
use crate::access::users::PermissionRegistery;
use crate::hooks::github::{GithubWebhook, spec_github_trigger};
use crate::hooks::gitlab::{GitlabWebhook, spec_gitlab_trigger};
use crate::hooks::hooks::{HookTrigger, HookTriggerView, ToHookTrigger};
use crate::server::types::OptionalJson;

verus! {

/// The answer to a request to update a submodule, before the update runs.
pub enum UpdateDecision {
    /// The request carries no token.
    MissingToken,
    /// The token's user may not update that submodule.
    NotAllowed,
    /// Go ahead with the update.
    Proceed,
}

impl UpdateDecision {
    /// The answer the service gives when the update does not run.
    pub fn message(&self) -> (res: &'static str)
        requires
            !(self is Proceed),
        ensures
            self is MissingToken ==> res@ == "Missing token"@,
            self is NotAllowed ==> res@ == "You are not allowed to do this action"@,
    {
        match self {
            UpdateDecision::MissingToken => "Missing token",
            _ => "You are not allowed to do this action",
        }
    }
}

/// The answer the service gives once an authorized update has run, by
/// whether it succeeded.
pub fn update_outcome_message(succeeded: bool) -> (res: &'static str)
    ensures
        succeeded ==> res@ == "Update Success"@,
        !succeeded ==> res@ == "Error on update"@,
{
    if succeeded {
        "Update Success"
    } else {
        "Error on update"
    }
}

/// Decides a request to update `submodule` of `owner/repo` on `branch`: it
/// needs a token, and the token's user must be granted that update.
pub fn update_decision(
    registry: &PermissionRegistery,
    token: Option<&str>,
    owner: &str,
    repo: &str,
    branch: &str,
    submodule: &str,
) -> (res: UpdateDecision)
    ensures
        token is None ==> res is MissingToken,
        token matches Some(t) ==> {
            let stored = spec_storable_token(t@);
            if registry.users@.contains_key(stored) && spec_allowed(
                registry.permissions@,
                registry.users@[stored],
                owner@,
                repo@,
                branch@,
                submodule@,
            ) {
                res is Proceed
            } else {
                res is NotAllowed
            }
        },
{
    match token {
        None => UpdateDecision::MissingToken,
        Some(t) => if registry.allowed(t, owner, repo, branch, submodule) {
            UpdateDecision::Proceed
        } else {
            UpdateDecision::NotAllowed
        },
    }
}

/// What a webhook asks for.
pub enum WebhookDecision {
    /// The request carries no token.
    MissingToken,
    /// The payload did not move a branch, or was not understood.
    NothingToDo,
    /// Run the hooks of the branch that moved, for the holder of `token`.
    Trigger { token: String, trigger: HookTrigger },
}

impl WebhookDecision {
    /// The answer the service gives when no hook runs.
    pub fn message(&self) -> (res: &'static str)
        requires
            !(self is Trigger),
        ensures
            self is MissingToken ==> res@ == "Missing token"@,
            self is NothingToDo ==> res@ == "Nothing to do"@,
    {
        match self {
            WebhookDecision::MissingToken => "Missing token",
            _ => "Nothing to do",
        }
    }
}

/// The decision for a webhook whose payload yields `trigger`.
pub open spec fn spec_webhook_decision(token: Option<String>, has_data: bool, trigger: Option<HookTriggerView>, res: WebhookDecision) -> bool {
    match token {
        None => res is MissingToken,
        Some(t) => if !has_data {
            res is NothingToDo
        } else {
            match trigger {
                None => res is NothingToDo,
                Some(tv) => res matches WebhookDecision::Trigger { token, trigger } && token@ == t@
                    && trigger@ == tv,
            }
        },
    }
}

/// A webhook runs hooks exactly when it carries a token and a payload that
/// moved a branch, and then for that token and that branch; without a token
/// the answer is the missing token, whatever the payload.
pub proof fn lemma_webhook_decision(
    token: Option<String>,
    has_data: bool,
    trigger: Option<HookTriggerView>,
    res: WebhookDecision,
)
    requires
        spec_webhook_decision(token, has_data, trigger, res),
    ensures
        (res is MissingToken) == (token is None),
        (res is Trigger) == (token is Some && has_data && trigger is Some),
        (res is NothingToDo) == (token is Some && !(has_data && trigger is Some)),
        res matches WebhookDecision::Trigger { token: t, trigger: tr } ==> t@ == token->0@ && Some(
            tr@,
        ) == trigger,
{
}

/// Decides a GitHub webhook: it needs a token and a payload that moved a branch.
pub fn github_webhook_decision(token: Option<String>, data: OptionalJson<GithubWebhook>) -> (res: WebhookDecision)
    ensures
        spec_webhook_decision(
            token,
            data.data is Some,
            match data.data {
                Some(w) => spec_github_trigger(w),
                None => None,
            },
            res,
        ),
{
    let token = match token {
        Some(t) => t,
        None => return WebhookDecision::MissingToken,
    };
    let payload = match data.data {
        Some(w) => w,
        None => return WebhookDecision::NothingToDo,
    };
    match payload.as_hook_trigger() {
        Some(trigger) => WebhookDecision::Trigger { token, trigger },
        None => WebhookDecision::NothingToDo,
    }
}

/// Decides a GitLab webhook: it needs a token and a payload that moved a branch.
pub fn gitlab_webhook_decision(token: Option<String>, data: OptionalJson<GitlabWebhook>) -> (res: WebhookDecision)
    ensures
        spec_webhook_decision(
            token,
            data.data is Some,
            match data.data {
                Some(w) => spec_gitlab_trigger(w),
                None => None,
            },
            res,
        ),
{
    let token = match token {
        Some(t) => t,
        None => return WebhookDecision::MissingToken,
    };
    let payload = match data.data {
        Some(w) => w,
        None => return WebhookDecision::NothingToDo,
    };
    match payload.as_hook_trigger() {
        Some(trigger) => WebhookDecision::Trigger { token, trigger },
        None => WebhookDecision::NothingToDo,
    }
}

} // verus!
