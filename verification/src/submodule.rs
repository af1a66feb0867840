//! Updating a submodule of a branch to a given commit.
//!
//! The update goes through the git data API in fixed steps: read the commit
//! the submodule points at; if it is already the wanted one, stop; otherwise
//! read the head of the branch, create a tree that changes only the
//! submodule's entry, create a commit of that tree on top of the head, and
//! move the branch to that commit. The calls themselves are made by the
//! caller; this module decides each next call from the answer to the last.

use vstd::prelude::*;
use vstd::string::StringExecFns;
use crate::text::same_text;

verus! {

/// One submodule that a hook updates: the repository and branch that hold
/// it, and its path there.
pub struct SubmoduleUpdateData {
    pub owner: String,
    pub repo: String,
    pub branch: String,
    pub submodule: String,
}

/// What a `SubmoduleUpdateData` holds.
pub struct SubmoduleUpdateDataView {
    pub owner: Seq<char>,
    pub repo: Seq<char>,
    pub branch: Seq<char>,
    pub submodule: Seq<char>,
}

impl View for SubmoduleUpdateData {
    type V = SubmoduleUpdateDataView;

    open spec fn view(&self) -> SubmoduleUpdateDataView {
        SubmoduleUpdateDataView {
            owner: self.owner@,
            repo: self.repo@,
            branch: self.branch@,
            submodule: self.submodule@,
        }
    }
}

/// The request to point `submodule_path` of `owner/repo` on `branch` at the
/// commit `hash`.
pub struct SubmoduleUpdate {
    owner: String,
    repo: String,
    branch: String,
    submodule_path: String,
    hash: String,
}

/// What a `SubmoduleUpdate` holds.
pub struct SubmoduleUpdateView {
    pub owner: Seq<char>,
    pub repo: Seq<char>,
    pub branch: Seq<char>,
    pub submodule_path: Seq<char>,
    pub hash: Seq<char>,
}

impl View for SubmoduleUpdate {
    type V = SubmoduleUpdateView;

    closed spec fn view(&self) -> SubmoduleUpdateView {
        SubmoduleUpdateView {
            owner: self.owner@,
            repo: self.repo@,
            branch: self.branch@,
            submodule_path: self.submodule_path@,
            hash: self.hash@,
        }
    }
}

/// The next call of an update, or its end.
pub enum UpdateAction {
    /// Read the commit that `path` of `owner/repo` points at on `branch`.
    FetchSubmoduleSha { owner: String, repo: String, path: String, branch: String },
    /// Read the commit at the head of `branch`.
    FetchBranchHead { owner: String, repo: String, branch: String },
    /// Create a tree from `base_tree` with the entry `path` of file mode
    /// `mode` and object type `object_type` at `sha`: for a submodule, mode
    /// `160000` (a gitlink) and type `commit`.
    CreateTree {
        owner: String,
        repo: String,
        base_tree: String,
        path: String,
        mode: String,
        object_type: String,
        sha: String,
    },
    /// Create a commit of `tree` with the single parent `parent`.
    CreateCommit { owner: String, repo: String, message: String, parent: String, tree: String },
    /// Move the reference `reference` to `sha`.
    UpdateRef { owner: String, repo: String, reference: String, sha: String },
    /// End: the submodule already points at the wanted commit; nothing was written.
    AlreadyUpToDate,
    /// End: the branch was moved to the new commit.
    Updated,
    /// End: a call failed; no further call is made.
    Abort,
}

/// What an `UpdateAction` holds.
pub enum UpdateActionView {
    FetchSubmoduleSha { owner: Seq<char>, repo: Seq<char>, path: Seq<char>, branch: Seq<char> },
    FetchBranchHead { owner: Seq<char>, repo: Seq<char>, branch: Seq<char> },
    CreateTree {
        owner: Seq<char>,
        repo: Seq<char>,
        base_tree: Seq<char>,
        path: Seq<char>,
        mode: Seq<char>,
        object_type: Seq<char>,
        sha: Seq<char>,
    },
    CreateCommit {
        owner: Seq<char>,
        repo: Seq<char>,
        message: Seq<char>,
        parent: Seq<char>,
        tree: Seq<char>,
    },
    UpdateRef { owner: Seq<char>, repo: Seq<char>, reference: Seq<char>, sha: Seq<char> },
    AlreadyUpToDate,
    Updated,
    Abort,
}

impl View for UpdateAction {
    type V = UpdateActionView;

    open spec fn view(&self) -> UpdateActionView {
        match self {
            UpdateAction::FetchSubmoduleSha { owner, repo, path, branch } => UpdateActionView::FetchSubmoduleSha {
                owner: owner@,
                repo: repo@,
                path: path@,
                branch: branch@,
            },
            UpdateAction::FetchBranchHead { owner, repo, branch } => UpdateActionView::FetchBranchHead {
                owner: owner@,
                repo: repo@,
                branch: branch@,
            },
            UpdateAction::CreateTree { owner, repo, base_tree, path, mode, object_type, sha } =>
                UpdateActionView::CreateTree {
                owner: owner@,
                repo: repo@,
                base_tree: base_tree@,
                path: path@,
                mode: mode@,
                object_type: object_type@,
                sha: sha@,
            },
            UpdateAction::CreateCommit { owner, repo, message, parent, tree } => UpdateActionView::CreateCommit {
                owner: owner@,
                repo: repo@,
                message: message@,
                parent: parent@,
                tree: tree@,
            },
            UpdateAction::UpdateRef { owner, repo, reference, sha } => UpdateActionView::UpdateRef {
                owner: owner@,
                repo: repo@,
                reference: reference@,
                sha: sha@,
            },
            UpdateAction::AlreadyUpToDate => UpdateActionView::AlreadyUpToDate,
            UpdateAction::Updated => UpdateActionView::Updated,
            UpdateAction::Abort => UpdateActionView::Abort,
        }
    }
}

/// Where an update stands: which answer it waits for.
pub enum UpdateState {
    /// Waits for the commit the submodule points at.
    AwaitSubmoduleSha,
    /// Waits for the head of the branch.
    AwaitBranchHead,
    /// Waits for the new tree, to be committed on top of `parent`, the branch
    /// head that was read.
    AwaitTree { parent: String },
    /// Waits for the new commit.
    AwaitCommit,
    /// Waits for the moved reference.
    AwaitRef,
    /// The update has ended.
    Finished,
}

/// What an `UpdateState` holds.
pub enum UpdateStateView {
    AwaitSubmoduleSha,
    AwaitBranchHead,
    AwaitTree { parent: Seq<char> },
    AwaitCommit,
    AwaitRef,
    Finished,
}

impl View for UpdateState {
    type V = UpdateStateView;

    open spec fn view(&self) -> UpdateStateView {
        match self {
            UpdateState::AwaitSubmoduleSha => UpdateStateView::AwaitSubmoduleSha,
            UpdateState::AwaitBranchHead => UpdateStateView::AwaitBranchHead,
            UpdateState::AwaitTree { parent } => UpdateStateView::AwaitTree { parent: parent@ },
            UpdateState::AwaitCommit => UpdateStateView::AwaitCommit,
            UpdateState::AwaitRef => UpdateStateView::AwaitRef,
            UpdateState::Finished => UpdateStateView::Finished,
        }
    }
}

/// The answer to a call: the sha it returned, or `None` when it failed.
pub open spec fn answer_view(answer: Result<String, ()>) -> Option<Seq<char>> {
    match answer {
        Ok(s) => Some(s@),
        Err(_) => None,
    }
}

/// The message of the commit that updates `path` to `hash`.
pub open spec fn spec_commit_message(path: Seq<char>, hash: Seq<char>) -> Seq<char> {
    "Automatic update submodule "@ + path + " to hash '"@ + hash + "'"@
}

/// The reference of the branch `branch`, as the git data API names it.
pub open spec fn spec_branch_ref(branch: Seq<char>) -> Seq<char> {
    "heads/"@ + branch
}

/// Whether an action writes to the repository.
pub open spec fn is_write(a: UpdateActionView) -> bool {
    ||| a is CreateTree
    ||| a is CreateCommit
    ||| a is UpdateRef
}

/// One step of the update of `req`: from the state and the answer to the
/// last call, the next state and the next call. A failed call ends the update.
pub open spec fn spec_step(req: SubmoduleUpdateView, state: UpdateStateView, answer: Option<Seq<char>>) -> (
    UpdateStateView,
    UpdateActionView,
) {
    match (state, answer) {
        (UpdateStateView::Finished, _) => (UpdateStateView::Finished, UpdateActionView::Abort),
        (_, None) => (UpdateStateView::Finished, UpdateActionView::Abort),
        (UpdateStateView::AwaitSubmoduleSha, Some(current)) => if current == req.hash {
            (UpdateStateView::Finished, UpdateActionView::AlreadyUpToDate)
        } else {
            (
                UpdateStateView::AwaitBranchHead,
                UpdateActionView::FetchBranchHead { owner: req.owner, repo: req.repo, branch: req.branch },
            )
        },
        (UpdateStateView::AwaitBranchHead, Some(head)) => (
            UpdateStateView::AwaitTree { parent: head },
            UpdateActionView::CreateTree {
                owner: req.owner,
                repo: req.repo,
                base_tree: head,
                path: req.submodule_path,
                mode: "160000"@,
                object_type: "commit"@,
                sha: req.hash,
            },
        ),
        (UpdateStateView::AwaitTree { parent }, Some(tree)) => (
            UpdateStateView::AwaitCommit,
            UpdateActionView::CreateCommit {
                owner: req.owner,
                repo: req.repo,
                message: spec_commit_message(req.submodule_path, req.hash),
                parent,
                tree,
            },
        ),
        (UpdateStateView::AwaitCommit, Some(commit)) => (
            UpdateStateView::AwaitRef,
            UpdateActionView::UpdateRef {
                owner: req.owner,
                repo: req.repo,
                reference: spec_branch_ref(req.branch),
                sha: commit,
            },
        ),
        (UpdateStateView::AwaitRef, Some(_)) => (UpdateStateView::Finished, UpdateActionView::Updated),
    }
}

/// The calls an update makes from `state` when the calls are answered by
/// `answers`, in order.
pub open spec fn spec_run(req: SubmoduleUpdateView, state: UpdateStateView, answers: Seq<Option<Seq<char>>>) -> Seq<
    UpdateActionView,
>
    decreases answers.len(),
{
    if answers.len() == 0 {
        Seq::empty()
    } else {
        let (next, action) = spec_step(req, state, answers[0]);
        seq![action] + spec_run(req, next, answers.drop_first())
    }
}

/// An update that has ended makes no more calls.
pub proof fn lemma_finished_run_aborts(req: SubmoduleUpdateView, answers: Seq<Option<Seq<char>>>)
    ensures
        forall|j: int|
            0 <= j < answers.len() ==> #[trigger] spec_run(req, UpdateStateView::Finished, answers)[j]
                is Abort,
        spec_run(req, UpdateStateView::Finished, answers).len() == answers.len(),
    decreases answers.len(),
{
    if answers.len() > 0 {
        lemma_finished_run_aborts(req, answers.drop_first());
        let rest = spec_run(req, UpdateStateView::Finished, answers.drop_first());
        assert forall|j: int| 0 <= j < answers.len() implies #[trigger] spec_run(
            req,
            UpdateStateView::Finished,
            answers,
        )[j] is Abort by {
            if j > 0 {
                assert(spec_run(req, UpdateStateView::Finished, answers)[j] == rest[j - 1]);
            }
        }
    }
}

/// A run makes one call per answer.
pub proof fn lemma_run_length(req: SubmoduleUpdateView, state: UpdateStateView, answers: Seq<Option<Seq<char>>>)
    ensures
        spec_run(req, state, answers).len() == answers.len(),
    decreases answers.len(),
{
    if answers.len() > 0 {
        let (next, action) = spec_step(req, state, answers[0]);
        lemma_run_length(req, next, answers.drop_first());
    }
}

/// Once a call of an update fails, the update writes nothing more: neither a
/// tree, nor a commit, nor the branch reference.
pub proof fn lemma_no_write_after_failure(
    req: SubmoduleUpdateView,
    state: UpdateStateView,
    answers: Seq<Option<Seq<char>>>,
    i: int,
)
    requires
        0 <= i < answers.len(),
        answers[i] is None,
    ensures
        forall|j: int| i <= j < answers.len() ==> !is_write(#[trigger] spec_run(req, state, answers)[j]),
    decreases i,
{
    let (next, action) = spec_step(req, state, answers[0]);
    let rest = spec_run(req, next, answers.drop_first());
    lemma_run_length(req, next, answers.drop_first());
    if i == 0 {
        assert(next is Finished && action is Abort);
        lemma_finished_run_aborts(req, answers.drop_first());
    } else {
        lemma_no_write_after_failure(req, next, answers.drop_first(), i - 1);
    }
    assert forall|j: int| i <= j < answers.len() implies !is_write(
        #[trigger] spec_run(req, state, answers)[j],
    ) by {
        if j > 0 {
            assert(spec_run(req, state, answers)[j] == rest[j - 1]);
        }
    }
}

/// Once the submodule is found at the wanted commit, the update writes nothing.
pub proof fn lemma_up_to_date_writes_nothing(req: SubmoduleUpdateView, answers: Seq<Option<Seq<char>>>)
    requires
        answers.len() > 0,
        answers[0] == Some(req.hash),
    ensures
        forall|j: int|
            0 <= j < answers.len() ==> !is_write(
                #[trigger] spec_run(req, UpdateStateView::AwaitSubmoduleSha, answers)[j],
            ),
{
    let rest = spec_run(req, UpdateStateView::Finished, answers.drop_first());
    lemma_finished_run_aborts(req, answers.drop_first());
    assert forall|j: int| 0 <= j < answers.len() implies !is_write(
        #[trigger] spec_run(req, UpdateStateView::AwaitSubmoduleSha, answers)[j],
    ) by {
        if j > 0 {
            assert(spec_run(req, UpdateStateView::AwaitSubmoduleSha, answers)[j] == rest[j - 1]);
        }
    }
}

/// What one step of an update does, field by field, for every state and
/// answer: every call targets the request's repository; the tree puts the
/// request's submodule path, as a gitlink (mode `160000`, type `commit`), at
/// the request's commit on top of the head just read; the commit is made of
/// the tree just created on the head read before; the reference moved is the
/// request's branch, to the commit just created; a failed call or an ended
/// update ends in `Abort`.
pub proof fn lemma_step_fields(req: SubmoduleUpdateView, state: UpdateStateView, answer: Option<Seq<char>>)
    ensures
        ({
            let (next, action) = spec_step(req, state, answer);
            &&& (answer is None || state is Finished) ==> next is Finished && action is Abort
            &&& (state is AwaitSubmoduleSha && answer == Some(req.hash)) ==> next is Finished
                && action is AlreadyUpToDate
            &&& (state is AwaitSubmoduleSha && answer is Some && answer != Some(req.hash)) ==> next
                is AwaitBranchHead && action == (UpdateActionView::FetchBranchHead {
                owner: req.owner,
                repo: req.repo,
                branch: req.branch,
            })
            &&& (state is AwaitBranchHead && answer is Some) ==> next == (UpdateStateView::AwaitTree {
                parent: answer->0,
            }) && action == (UpdateActionView::CreateTree {
                owner: req.owner,
                repo: req.repo,
                base_tree: answer->0,
                path: req.submodule_path,
                mode: "160000"@,
                object_type: "commit"@,
                sha: req.hash,
            })
            &&& (state is AwaitTree && answer is Some) ==> next is AwaitCommit && action == (
            UpdateActionView::CreateCommit {
                owner: req.owner,
                repo: req.repo,
                message: "Automatic update submodule "@ + req.submodule_path + " to hash '"@
                    + req.hash + "'"@,
                parent: state->parent,
                tree: answer->0,
            })
            &&& (state is AwaitCommit && answer is Some) ==> next is AwaitRef && action == (
            UpdateActionView::UpdateRef {
                owner: req.owner,
                repo: req.repo,
                reference: "heads/"@ + req.branch,
                sha: answer->0,
            })
            &&& (state is AwaitRef && answer is Some) ==> next is Finished && action is Updated
            &&& (action is CreateTree || action is CreateCommit || action is UpdateRef
                || action is FetchBranchHead) ==> answer is Some && !(state is Finished)
        }),
{
}

/// In an update that runs to its commit, the commit is made of the tree just
/// created, on top of the branch head that was read, and the reference is
/// then moved to that commit.
pub proof fn lemma_commit_on_read_head(req: SubmoduleUpdateView, answers: Seq<Option<Seq<char>>>)
    requires
        answers.len() >= 4,
        answers[0] is Some && answers[0] != Some(req.hash),
        answers[1] is Some,
        answers[2] is Some,
        answers[3] is Some,
    ensures
        ({
            let run = spec_run(req, UpdateStateView::AwaitSubmoduleSha, answers);
            &&& run[0] == (UpdateActionView::FetchBranchHead {
                owner: req.owner,
                repo: req.repo,
                branch: req.branch,
            })
            &&& run[1] matches UpdateActionView::CreateTree {
                owner,
                repo,
                base_tree,
                path,
                mode,
                object_type,
                sha,
            } && owner == req.owner && repo == req.repo && Some(base_tree) == answers[1] && path
                == req.submodule_path && mode == "160000"@ && object_type == "commit"@ && sha
                == req.hash
            &&& run[2] matches UpdateActionView::CreateCommit { owner, repo, parent, tree, .. }
                && owner == req.owner && repo == req.repo && Some(parent) == answers[1] && Some(tree)
                == answers[2]
            &&& run[3] matches UpdateActionView::UpdateRef { owner, repo, reference, sha } && owner
                == req.owner && repo == req.repo && reference == "heads/"@ + req.branch && Some(sha)
                == answers[3]
        }),
{
    let a1 = answers.drop_first();
    let a2 = a1.drop_first();
    let a3 = a2.drop_first();
    let head = answers[1]->0;
    assert(a1[0] == answers[1]);
    assert(a2[0] == answers[2]);
    assert(a3[0] == answers[3]);
    let r3 = spec_run(req, UpdateStateView::AwaitCommit, a3);
    let r2 = spec_run(req, UpdateStateView::AwaitTree { parent: head }, a2);
    let r1 = spec_run(req, UpdateStateView::AwaitBranchHead, a1);
    let r0 = spec_run(req, UpdateStateView::AwaitSubmoduleSha, answers);
    assert(r0[1] == r1[0]);
    assert(r0[2] == r1[1]);
    assert(r1[1] == r2[0]);
    assert(r0[3] == r1[2]);
    assert(r1[2] == r2[1]);
    assert(r2[1] == r3[0]);
}

fn copy_text(s: &String) -> (res: String)
    ensures
        res@ == s@,
{
    s.clone()
}

impl SubmoduleUpdate {
    /// The request to point `submodule_path` of `owner/repo` on `branch` at `hash`.
    pub fn new(owner: &str, repo: &str, branch: &str, submodule_path: &str, hash: &str) -> (res: SubmoduleUpdate)
        ensures
            res@ == (SubmoduleUpdateView {
                owner: owner@,
                repo: repo@,
                branch: branch@,
                submodule_path: submodule_path@,
                hash: hash@,
            }),
    {
        SubmoduleUpdate {
            owner: owner.to_owned(),
            repo: repo.to_owned(),
            branch: branch.to_owned(),
            submodule_path: submodule_path.to_owned(),
            hash: hash.to_owned(),
        }
    }

    /// The start of the update: read where the submodule points now.
    pub fn start(&self) -> (res: (UpdateState, UpdateAction))
        ensures
            res.0@ == UpdateStateView::AwaitSubmoduleSha,
            res.1@ == (UpdateActionView::FetchSubmoduleSha {
                owner: self@.owner,
                repo: self@.repo,
                path: self@.submodule_path,
                branch: self@.branch,
            }),
    {
        (
            UpdateState::AwaitSubmoduleSha,
            UpdateAction::FetchSubmoduleSha {
                owner: copy_text(&self.owner),
                repo: copy_text(&self.repo),
                path: copy_text(&self.submodule_path),
                branch: copy_text(&self.branch),
            },
        )
    }

    /// The next state and call of the update, from the state it was in and
    /// the answer to the last call (the sha that call returned, or `Err`
    /// when it failed).
    pub fn step(&self, state: UpdateState, answer: Result<String, ()>) -> (res: (UpdateState, UpdateAction))
        ensures
            (res.0@, res.1@) == spec_step(self@, state@, answer_view(answer)),
    {
        let finished = (UpdateState::Finished, UpdateAction::Abort);
        match state {
            UpdateState::Finished => finished,
            UpdateState::AwaitSubmoduleSha => match answer {
                Err(_) => finished,
                Ok(current) => if same_text(current.as_str(), self.hash.as_str()) {
                    (UpdateState::Finished, UpdateAction::AlreadyUpToDate)
                } else {
                    (
                        UpdateState::AwaitBranchHead,
                        UpdateAction::FetchBranchHead {
                            owner: copy_text(&self.owner),
                            repo: copy_text(&self.repo),
                            branch: copy_text(&self.branch),
                        },
                    )
                },
            },
            UpdateState::AwaitBranchHead => match answer {
                Err(_) => finished,
                Ok(head) => {
                    let action = UpdateAction::CreateTree {
                        owner: copy_text(&self.owner),
                        repo: copy_text(&self.repo),
                        base_tree: copy_text(&head),
                        path: copy_text(&self.submodule_path),
                        mode: "160000".to_owned(),
                        object_type: "commit".to_owned(),
                        sha: copy_text(&self.hash),
                    };
                    (UpdateState::AwaitTree { parent: head }, action)
                },
            },
            UpdateState::AwaitTree { parent } => match answer {
                Err(_) => finished,
                Ok(tree) => {
                    let mut message = "Automatic update submodule ".to_owned();
                    message.append(self.submodule_path.as_str());
                    message.append(" to hash '");
                    message.append(self.hash.as_str());
                    message.append("'");
                    (
                        UpdateState::AwaitCommit,
                        UpdateAction::CreateCommit {
                            owner: copy_text(&self.owner),
                            repo: copy_text(&self.repo),
                            message,
                            parent,
                            tree,
                        },
                    )
                },
            },
            UpdateState::AwaitCommit => match answer {
                Err(_) => finished,
                Ok(commit) => {
                    let mut reference = "heads/".to_owned();
                    reference.append(self.branch.as_str());
                    (
                        UpdateState::AwaitRef,
                        UpdateAction::UpdateRef {
                            owner: copy_text(&self.owner),
                            repo: copy_text(&self.repo),
                            reference,
                            sha: commit,
                        },
                    )
                },
            },
            UpdateState::AwaitRef => match answer {
                Err(_) => finished,
                Ok(_) => (UpdateState::Finished, UpdateAction::Updated),
            },
        }
    }
}

} // verus!
