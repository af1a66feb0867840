//! The permission tree `user -> owner -> repository -> branch -> submodules`.

use vstd::prelude::*;
use vstd::hash_map::StringHashMap;
use vstd::hash_set::StringHashSet;

verus! {

/// The abstract permission tree: for each user, owner, repository and branch,
/// the set of submodules that may be updated.
pub type PermTree = Map<Seq<char>, Map<Seq<char>, Map<Seq<char>, Map<Seq<char>, Set<Seq<char>>>>>>;

/// Whether the tree grants `user` the right to update `submodule` of
/// `owner/repo` on `branch`: every level of the path is present.
pub open spec fn spec_allowed(
    tree: PermTree,
    user: Seq<char>,
    owner: Seq<char>,
    repo: Seq<char>,
    branch: Seq<char>,
    submodule: Seq<char>,
) -> bool {
    &&& tree.contains_key(user)
    &&& tree[user].contains_key(owner)
    &&& tree[user][owner].contains_key(repo)
    &&& tree[user][owner][repo].contains_key(branch)
    &&& tree[user][owner][repo][branch].contains(submodule)
}

/// A tree grants exactly its paths, by equal names at every level.
pub proof fn lemma_allowed_is_path(
    tree: PermTree,
    user: Seq<char>,
    owner: Seq<char>,
    repo: Seq<char>,
    branch: Seq<char>,
    submodule: Seq<char>,
)
    ensures
        spec_allowed(tree, user, owner, repo, branch, submodule) == (tree.dom().contains(user)
            && tree[user].dom().contains(owner) && tree[user][owner].dom().contains(repo)
            && tree[user][owner][repo].dom().contains(branch)
            && tree[user][owner][repo][branch].contains(submodule)),
{
}

/// A tree holding one granted path grants that path and nothing else.
pub proof fn lemma_single_grant(
    user: Seq<char>,
    owner: Seq<char>,
    repo: Seq<char>,
    branch: Seq<char>,
    submodule: Seq<char>,
    u: Seq<char>,
    o: Seq<char>,
    r: Seq<char>,
    b: Seq<char>,
    s: Seq<char>,
)
    ensures
        ({
            let tree = PermTree::empty().insert(
                user,
                Map::empty().insert(
                    owner,
                    Map::empty().insert(
                        repo,
                        Map::empty().insert(branch, Set::empty().insert(submodule)),
                    ),
                ),
            );
            spec_allowed(tree, u, o, r, b, s) == (u == user && o == owner && r == repo && b == branch
                && s == submodule)
        }),
{
}

/// The submodules of one branch that may be updated.
pub struct BranchPerm(StringHashSet);

/// Branch name to the permissions on that branch.
pub struct RepoPerm(StringHashMap<BranchPerm>);

/// Repository name to the permissions on that repository.
pub struct OwnerPerm(StringHashMap<RepoPerm>);

/// Owner name to the permissions on that owner's repositories.
pub struct UserPerm(StringHashMap<OwnerPerm>);

/// User name to everything that user may update.
pub struct Permissions(StringHashMap<UserPerm>);

impl View for BranchPerm {
    type V = Set<Seq<char>>;

    closed spec fn view(&self) -> Set<Seq<char>> {
        self.0@
    }
}

impl View for RepoPerm {
    type V = Map<Seq<char>, Set<Seq<char>>>;

    closed spec fn view(&self) -> Self::V {
        self.0@.map_values(|b: BranchPerm| b@)
    }
}

impl View for OwnerPerm {
    type V = Map<Seq<char>, Map<Seq<char>, Set<Seq<char>>>>;

    closed spec fn view(&self) -> Self::V {
        self.0@.map_values(|r: RepoPerm| r@)
    }
}

impl View for UserPerm {
    type V = Map<Seq<char>, Map<Seq<char>, Map<Seq<char>, Set<Seq<char>>>>>;

    closed spec fn view(&self) -> Self::V {
        self.0@.map_values(|o: OwnerPerm| o@)
    }
}

impl View for Permissions {
    type V = PermTree;

    closed spec fn view(&self) -> PermTree {
        self.0@.map_values(|u: UserPerm| u@)
    }
}

impl BranchPerm {
    /// A branch on which no submodule may be updated.
    pub fn new() -> (res: Self)
        ensures
            res@ == Set::<Seq<char>>::empty(),
    {
        BranchPerm(StringHashSet::new())
    }

    /// Grants the update of `submodule`.
    pub fn insert(&mut self, submodule: String)
        ensures
            final(self)@ == old(self)@.insert(submodule@),
    {
        self.0.insert(submodule);
    }

    /// Whether `submodule` may be updated.
    pub fn contains(&self, submodule: &str) -> (res: bool)
        ensures
            res == self@.contains(submodule@),
    {
        self.0.contains(submodule)
    }
}

impl RepoPerm {
    /// A repository with no branch.
    pub fn new() -> (res: Self)
        ensures
            res@ == Map::<Seq<char>, Set<Seq<char>>>::empty(),
    {
        let res = RepoPerm(StringHashMap::new());
        assert(res@ =~= Map::<Seq<char>, Set<Seq<char>>>::empty());
        res
    }

    /// Sets the permissions of `branch`, replacing any earlier ones.
    pub fn insert(&mut self, branch: String, perm: BranchPerm)
        ensures
            final(self)@ == old(self)@.insert(branch@, perm@),
    {
        self.0.insert(branch, perm);
        assert(self@ =~= old(self)@.insert(branch@, perm@));
    }
}

impl OwnerPerm {
    /// An owner with no repository.
    pub fn new() -> (res: Self)
        ensures
            res@ == Map::<Seq<char>, Map<Seq<char>, Set<Seq<char>>>>::empty(),
    {
        let res = OwnerPerm(StringHashMap::new());
        assert(res@ =~= Map::<Seq<char>, Map<Seq<char>, Set<Seq<char>>>>::empty());
        res
    }

    /// Sets the permissions of `repo`, replacing any earlier ones.
    pub fn insert(&mut self, repo: String, perm: RepoPerm)
        ensures
            final(self)@ == old(self)@.insert(repo@, perm@),
    {
        self.0.insert(repo, perm);
        assert(self@ =~= old(self)@.insert(repo@, perm@));
    }
}

impl UserPerm {
    /// A user with no owner.
    pub fn new() -> (res: Self)
        ensures
            res@ == Map::<Seq<char>, Map<Seq<char>, Map<Seq<char>, Set<Seq<char>>>>>::empty(),
    {
        let res = UserPerm(StringHashMap::new());
        assert(res@ =~= Map::<Seq<char>, Map<Seq<char>, Map<Seq<char>, Set<Seq<char>>>>>::empty());
        res
    }

    /// Sets the permissions on `owner`, replacing any earlier ones.
    pub fn insert(&mut self, owner: String, perm: OwnerPerm)
        ensures
            final(self)@ == old(self)@.insert(owner@, perm@),
    {
        self.0.insert(owner, perm);
        assert(self@ =~= old(self)@.insert(owner@, perm@));
    }
}

impl Permissions {
    /// A tree that grants nothing.
    pub fn new() -> (res: Self)
        ensures
            res@ == PermTree::empty(),
    {
        let res = Permissions(StringHashMap::new());
        assert(res@ =~= PermTree::empty());
        res
    }

    /// Sets the permissions of `user`, replacing any earlier ones.
    pub fn insert(&mut self, user: String, perm: UserPerm)
        ensures
            final(self)@ == old(self)@.insert(user@, perm@),
    {
        self.0.insert(user, perm);
        assert(self@ =~= old(self)@.insert(user@, perm@));
    }

    /// Whether `user` may update `submodule` of `owner/repo` on `branch`.
    pub fn allowed(&self, user: &str, owner: &str, repo: &str, branch: &str, submodule: &str) -> (res: bool)
        ensures
            res == spec_allowed(self@, user@, owner@, repo@, branch@, submodule@),
    {
        let userperm = match self.0.get(user) {
            Some(u) => u,
            None => return false,
        };
        let ownerperm = match userperm.0.get(owner) {
            Some(o) => o,
            None => return false,
        };
        let repoperm = match ownerperm.0.get(repo) {
            Some(r) => r,
            None => return false,
        };
        let branchperm = match repoperm.0.get(branch) {
            Some(b) => b,
            None => return false,
        };
        branchperm.contains(submodule)
    }
}

} // verus!
