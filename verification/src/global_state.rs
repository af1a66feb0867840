//! What the service does when a branch moves: which of the hooks registered
//! for that branch it runs on behalf of the holder of a token.

use vstd::prelude::*;
use crate::access::permissions::{PermTree, spec_allowed};
use crate::access::token::spec_storable_token;
use crate::access::users::PermissionRegistery;
use crate::hooks::hooks::{HookRegistery, HookTrigger, hooks_view, spec_has_hooks};
use crate::submodule::{SubmoduleUpdate, SubmoduleUpdateDataView, SubmoduleUpdateView};

verus! {

/// Whether the permission tree grants `user` the update of the hook `h`.
pub open spec fn hook_allowed(tree: PermTree, user: Seq<char>) -> spec_fn(SubmoduleUpdateDataView) -> bool {
    |h: SubmoduleUpdateDataView| spec_allowed(tree, user, h.owner, h.repo, h.branch, h.submodule)
}

/// The update that a hook asks for when its branch moved to `hash`: its
/// submodule pointed at `hash`.
pub open spec fn hook_update(hash: Seq<char>) -> spec_fn(SubmoduleUpdateDataView) -> SubmoduleUpdateView {
    |h: SubmoduleUpdateDataView|
        SubmoduleUpdateView {
            owner: h.owner,
            repo: h.repo,
            branch: h.branch,
            submodule_path: h.submodule,
            hash,
        }
}

/// What a list of update requests holds.
pub open spec fn updates_view(updates: Seq<SubmoduleUpdate>) -> Seq<SubmoduleUpdateView> {
    updates.map_values(|u: SubmoduleUpdate| u@)
}

/// A hook may run exactly when the tree grants its user the update of the
/// hook's submodule on the hook's branch of the hook's repository.
pub proof fn lemma_hook_allowed(tree: PermTree, user: Seq<char>, h: SubmoduleUpdateDataView)
    ensures
        hook_allowed(tree, user)(h) == (tree.dom().contains(user) && tree[user].dom().contains(
            h.owner,
        ) && tree[user][h.owner].dom().contains(h.repo) && tree[user][h.owner][h.repo].dom().contains(
            h.branch,
        ) && tree[user][h.owner][h.repo][h.branch].contains(h.submodule)),
{
}

/// The update a hook asks for keeps the hook's repository, branch and
/// submodule path as they are, and points the submodule at the new commit.
pub proof fn lemma_hook_update(hash: Seq<char>, h: SubmoduleUpdateDataView)
    ensures
        hook_update(hash)(h).owner == h.owner,
        hook_update(hash)(h).repo == h.repo,
        hook_update(hash)(h).branch == h.branch,
        hook_update(hash)(h).submodule_path == h.submodule,
        hook_update(hash)(h).hash == hash,
{
}

/// What to do about a moved branch.
pub enum HookPlan {
    /// No hook is registered for the branch.
    NothingToBeDone,
    /// The token belongs to no known user.
    UserNotFound,
    /// Run these updates, in this order: each points a submodule at the
    /// commit the branch moved to.
    Update(Vec<SubmoduleUpdate>),
}

impl HookPlan {
    /// The answer the service gives for this plan, once it is carried out.
    pub fn message(&self) -> (res: &'static str)
        ensures
            self is NothingToBeDone ==> res@ == "Nothing to be done"@,
            self is UserNotFound ==> res@ == "User not found"@,
            self is Update ==> res@ == "Ok"@,
    {
        match self {
            HookPlan::NothingToBeDone => "Nothing to be done",
            HookPlan::UserNotFound => "User not found",
            HookPlan::Update(_) => "Ok",
        }
    }
}

/// Plans the hooks of the branch that `trigger` moved, for the holder of
/// `token`: none when no hook is registered for the branch; a refusal when the
/// token belongs to no known user; otherwise the registered hooks that the
/// user may run, in their registered order, each as the update of its
/// submodule to the commit that the branch moved to.
pub fn plan_hooks(registry: &PermissionRegistery, hooks: &HookRegistery, token: &str, trigger: &HookTrigger) -> (res: HookPlan)
    ensures
        !spec_has_hooks(hooks@, trigger.owner@, trigger.repo@, trigger.branch@) ==> res is NothingToBeDone,
        spec_has_hooks(hooks@, trigger.owner@, trigger.repo@, trigger.branch@)
            && !registry.users@.contains_key(spec_storable_token(token@)) ==> res is UserNotFound,
        spec_has_hooks(hooks@, trigger.owner@, trigger.repo@, trigger.branch@)
            && registry.users@.contains_key(spec_storable_token(token@)) ==> (res matches HookPlan::Update(list)
            && updates_view(list@) == hooks@[trigger.owner@][trigger.repo@][trigger.branch@].filter(
            hook_allowed(registry.permissions@, registry.users@[spec_storable_token(token@)]),
        ).map_values(hook_update(trigger.hash@))),
        res matches HookPlan::Update(list) ==> ({
            let kept = hooks@[trigger.owner@][trigger.repo@][trigger.branch@].filter(
                hook_allowed(registry.permissions@, registry.users@[spec_storable_token(token@)]),
            );
            &&& list@.len() == kept.len()
            &&& forall|i: int|
                0 <= i < list@.len() ==> #[trigger] list@[i]@ == (SubmoduleUpdateView {
                    owner: kept[i].owner,
                    repo: kept[i].repo,
                    branch: kept[i].branch,
                    submodule_path: kept[i].submodule,
                    hash: trigger.hash@,
                })
        }),
{
    let list = match hooks.get(trigger.owner.as_str(), trigger.repo.as_str(), trigger.branch.as_str()) {
        Some(l) => l,
        None => return HookPlan::NothingToBeDone,
    };
    let user = match registry.get_user(token) {
        Some(u) => u,
        None => return HookPlan::UserNotFound,
    };
    let ghost pred = hook_allowed(registry.permissions@, user@);
    let ghost to_update = hook_update(trigger.hash@);
    let mut chosen: Vec<SubmoduleUpdate> = Vec::new();
    let n = list.len();
    for i in 0..n
        invariant
            n == list@.len(),
            pred == hook_allowed(registry.permissions@, user@),
            to_update == hook_update(trigger.hash@),
            updates_view(chosen@) == hooks_view(list@).take(i as int).filter(pred).map_values(
                to_update,
            ),
    {
        let h = &list[i];
        proof {
            reveal_with_fuel(Seq::<_>::filter, 1);
            assert(hooks_view(list@).take(i + 1).drop_last() =~= hooks_view(list@).take(i as int));
            assert(hooks_view(list@).take(i + 1).last() == h@);
        }
        if registry.permissions.allowed(
            user.as_str(),
            h.owner.as_str(),
            h.repo.as_str(),
            h.branch.as_str(),
            h.submodule.as_str(),
        ) {
            let ghost before = chosen@;
            chosen.push(
                SubmoduleUpdate::new(
                    h.owner.as_str(),
                    h.repo.as_str(),
                    h.branch.as_str(),
                    h.submodule.as_str(),
                    trigger.hash.as_str(),
                ),
            );
            proof {
                let kept = hooks_view(list@).take(i as int).filter(pred);
                assert(updates_view(chosen@) =~= updates_view(before).push(to_update(h@)));
                assert(kept.push(h@).map_values(to_update) =~= kept.map_values(to_update).push(
                    to_update(h@),
                ));
            }
        } else {
            proof {
                let kept = hooks_view(list@).take(i as int).filter(pred);
                assert(!pred(h@));
            }
        }
    }
    proof {
        assert(hooks_view(list@).take(n as int) =~= hooks_view(list@));
        let kept = hooks_view(list@).filter(pred);
        assert forall|i: int| 0 <= i < chosen@.len() implies #[trigger] chosen@[i]@ == (SubmoduleUpdateView {
            owner: kept[i].owner,
            repo: kept[i].repo,
            branch: kept[i].branch,
            submodule_path: kept[i].submodule,
            hash: trigger.hash@,
        }) by {
            assert(updates_view(chosen@)[i] == chosen@[i]@);
        }
    }
    HookPlan::Update(chosen)
}

} // verus!
