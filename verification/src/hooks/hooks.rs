//! The hook registry: for each owner, repository and branch, the submodules
//! to update when that branch moves; and the trigger that a webhook yields.

use vstd::prelude::*;
use vstd::hash_map::StringHashMap;
use crate::submodule::{SubmoduleUpdateData, SubmoduleUpdateDataView};

verus! {

/// The abstract registry: owner, repository and branch to the submodules
/// that follow that branch, in order.
pub type HookTree = Map<Seq<char>, Map<Seq<char>, Map<Seq<char>, Seq<SubmoduleUpdateDataView>>>>;

/// The entries of a list of hooks.
pub open spec fn hooks_view(hooks: Seq<SubmoduleUpdateData>) -> Seq<SubmoduleUpdateDataView> {
    hooks.map_values(|d: SubmoduleUpdateData| d@)
}

/// Whether the registry has an entry for `owner/repo` on `branch`.
pub open spec fn spec_has_hooks(tree: HookTree, owner: Seq<char>, repo: Seq<char>, branch: Seq<char>) -> bool {
    &&& tree.contains_key(owner)
    &&& tree[owner].contains_key(repo)
    &&& tree[owner][repo].contains_key(branch)
}

/// The registry has hooks for a branch exactly when it has the owner, then
/// the repository, then that very branch; the entries of a list of hooks are
/// those of its hooks, one for one, in order.
pub proof fn lemma_has_hooks_is_path(
    tree: HookTree,
    owner: Seq<char>,
    repo: Seq<char>,
    branch: Seq<char>,
    hooks: Seq<SubmoduleUpdateData>,
)
    ensures
        spec_has_hooks(tree, owner, repo, branch) == (tree.dom().contains(owner) && tree[owner].dom().contains(
            repo,
        ) && tree[owner][repo].dom().contains(branch)),
        hooks_view(hooks).len() == hooks.len(),
        forall|i: int| 0 <= i < hooks.len() ==> #[trigger] hooks_view(hooks)[i] == hooks[i]@,
{
}

/// The submodules to update when a branch moves.
pub struct BranchHook(Vec<SubmoduleUpdateData>);

/// Branch name to its hooks.
pub struct RepoHooh(StringHashMap<BranchHook>);

/// Repository name to its hooks.
pub struct OwnerHook(StringHashMap<RepoHooh>);

/// Owner name to the hooks on that owner's repositories.
pub struct HookRegistery(StringHashMap<OwnerHook>);

impl View for BranchHook {
    type V = Seq<SubmoduleUpdateDataView>;

    closed spec fn view(&self) -> Seq<SubmoduleUpdateDataView> {
        hooks_view(self.0@)
    }
}

impl View for RepoHooh {
    type V = Map<Seq<char>, Seq<SubmoduleUpdateDataView>>;

    closed spec fn view(&self) -> Self::V {
        self.0@.map_values(|b: BranchHook| b@)
    }
}

impl View for OwnerHook {
    type V = Map<Seq<char>, Map<Seq<char>, Seq<SubmoduleUpdateDataView>>>;

    closed spec fn view(&self) -> Self::V {
        self.0@.map_values(|r: RepoHooh| r@)
    }
}

impl View for HookRegistery {
    type V = HookTree;

    closed spec fn view(&self) -> HookTree {
        self.0@.map_values(|o: OwnerHook| o@)
    }
}

impl BranchHook {
    /// The hooks `hooks`, in that order.
    pub fn from_vec(hooks: Vec<SubmoduleUpdateData>) -> (res: Self)
        ensures
            res@ == hooks_view(hooks@),
    {
        BranchHook(hooks)
    }
}

impl RepoHooh {
    /// A repository without hooks.
    pub fn new() -> (res: Self)
        ensures
            res@ == Map::<Seq<char>, Seq<SubmoduleUpdateDataView>>::empty(),
    {
        let res = RepoHooh(StringHashMap::new());
        assert(res@ =~= Map::<Seq<char>, Seq<SubmoduleUpdateDataView>>::empty());
        res
    }

    /// Sets the hooks of `branch`, replacing any earlier ones.
    pub fn insert(&mut self, branch: String, hooks: BranchHook)
        ensures
            final(self)@ == old(self)@.insert(branch@, hooks@),
    {
        self.0.insert(branch, hooks);
        assert(self@ =~= old(self)@.insert(branch@, hooks@));
    }
}

impl OwnerHook {
    /// An owner without hooks.
    pub fn new() -> (res: Self)
        ensures
            res@ == Map::<Seq<char>, Map<Seq<char>, Seq<SubmoduleUpdateDataView>>>::empty(),
    {
        let res = OwnerHook(StringHashMap::new());
        assert(res@ =~= Map::<Seq<char>, Map<Seq<char>, Seq<SubmoduleUpdateDataView>>>::empty());
        res
    }

    /// Sets the hooks of `repo`, replacing any earlier ones.
    pub fn insert(&mut self, repo: String, hooks: RepoHooh)
        ensures
            final(self)@ == old(self)@.insert(repo@, hooks@),
    {
        self.0.insert(repo, hooks);
        assert(self@ =~= old(self)@.insert(repo@, hooks@));
    }
}

impl HookRegistery {
    /// A registry without hooks.
    pub fn new() -> (res: Self)
        ensures
            res@ == HookTree::empty(),
    {
        let res = HookRegistery(StringHashMap::new());
        assert(res@ =~= HookTree::empty());
        res
    }

    /// Sets the hooks on `owner`, replacing any earlier ones.
    pub fn insert(&mut self, owner: String, hooks: OwnerHook)
        ensures
            final(self)@ == old(self)@.insert(owner@, hooks@),
    {
        self.0.insert(owner, hooks);
        assert(self@ =~= old(self)@.insert(owner@, hooks@));
    }

    /// The submodules to update when `branch` of `owner/repo` moves, if the
    /// registry has an entry for that branch.
    pub fn get(&self, owner: &str, repo: &str, branch: &str) -> (res: Option<&Vec<SubmoduleUpdateData>>)
        ensures
            match res {
                Some(hooks) => spec_has_hooks(self@, owner@, repo@, branch@) && hooks_view(hooks@)
                    == self@[owner@][repo@][branch@],
                None => !spec_has_hooks(self@, owner@, repo@, branch@),
            },
    {
        let ownerhook = match self.0.get(owner) {
            Some(o) => o,
            None => return None,
        };
        let repohook = match ownerhook.0.get(repo) {
            Some(r) => r,
            None => return None,
        };
        match repohook.0.get(branch) {
            Some(b) => Some(&b.0),
            None => None,
        }
    }
}

/// A branch of a repository that moved to the commit `hash`.
pub struct HookTrigger {
    pub owner: String,
    pub repo: String,
    pub branch: String,
    pub hash: String,
}

/// What a `HookTrigger` holds.
pub struct HookTriggerView {
    pub owner: Seq<char>,
    pub repo: Seq<char>,
    pub branch: Seq<char>,
    pub hash: Seq<char>,
}

impl View for HookTrigger {
    type V = HookTriggerView;

    open spec fn view(&self) -> HookTriggerView {
        HookTriggerView {
            owner: self.owner@,
            repo: self.repo@,
            branch: self.branch@,
            hash: self.hash@,
        }
    }
}

/// The view of an optional trigger.
pub open spec fn trigger_view(t: Option<HookTrigger>) -> Option<HookTriggerView> {
    match t {
        Some(t) => Some(t@),
        None => None,
    }
}

/// An event that may move a branch: a webhook payload, for example.
pub trait ToHookTrigger {
    /// The branch that the event moved and the commit it now points at, if
    /// the event moved one.
    fn as_hook_trigger(self) -> Option<HookTrigger>;
}

} // verus!
