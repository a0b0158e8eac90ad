//! The lifecycle of agents as a state machine.
//!
//! An operation on the agents of a repository runs git and writes the
//! snapshot to storage, in a fixed order. The manager decides; its caller
//! acts. Each operation begins with a `Step` that tells the caller what to do
//! first. The caller does it and hands the report to `resume`, which gives
//! the next `Step`, until one comes that ends the operation. This module says
//! what every step is.

use vstd::prelude::*;
use crate::clock::Timestamp;
use crate::error::{Error, ErrorView};
use crate::git::{
    add_worktree_args, checkout_args, current_branch_args, current_commit_args,
    delete_branch_args, merge_args, remove_worktree_args, Arguments,
};
use crate::naming::{branch_name_of, merge_message_of, slug_of};
use crate::text::joined;
use crate::worktree::{
    agent_index, distinct_ids, has_agent, lemma_index_is_unique, lemma_others_stay,
    lemma_with_agent, lemma_with_merged, lemma_with_status, lemma_without_agent, lookup,
    with_agent, with_merged, with_status, without_agent, Agent, AgentStatus, AgentView, StateView,
};

verus! {

/// Where the operation in progress stands: what the caller was last told to
/// do, and for which operation.
#[derive(Clone, Copy, Debug, PartialEq, Eq, Structural)]
pub enum Stage {
    /// No operation is in progress.
    Idle,
    /// A question was put to git and its answer is the operation's result.
    Query,
    /// Creating: the current branch was asked for.
    CreateBranch,
    /// Creating: the current commit was asked for.
    CreateCommit,
    /// Creating: the worktree is being added.
    CreateAdd,
    /// Creating: the snapshot with the new agent is being saved.
    CreateSave,
    /// Removing: the worktree is being removed.
    RemoveTree,
    /// Removing: the worktree is being removed by force.
    RemoveTreeForced,
    /// Removing: the branch is being deleted.
    RemoveBranch,
    /// Removing: the branch is being deleted by force.
    RemoveBranchForced,
    /// Removing: the snapshot without the agent is being saved.
    RemoveSave,
    /// Updating a status: the snapshot is being saved.
    UpdateSave,
    /// Merging: the snapshot that marks the agent as merging is being saved.
    MergeMark,
    /// Merging: the base branch is being checked out.
    MergeCheckout,
    /// Merging: the agent's branch is being merged.
    MergeRun,
    /// Merging: the snapshot that marks the agent as merged is being saved.
    MergeSave,
}

/// What the caller of an operation is told: to act and come back, or how the
/// operation ended.
#[derive(Debug, PartialEq, Eq)]
pub enum Step {
    /// Run git with these arguments in the repository's root and `resume`
    /// with the report.
    Run(Vec<String>),
    /// Write the manager's snapshot to storage and `resume` with the report.
    Save,
    /// The operation ended with this answer of git.
    Text(String),
    /// The operation ended and recorded this new agent.
    Created(Agent),
    /// The operation ended and the agent is removed.
    Removed,
    /// The operation ended and the status is set.
    Updated,
    /// The operation ended and the agent is merged.
    Merged,
    /// The operation ended with this failure.
    Failed(Error),
}

/// A `Step` as contracts see it.
pub enum StepView {
    Run(Arguments),
    Save,
    Text(Seq<char>),
    Created(AgentView),
    Removed,
    Updated,
    Merged,
    Failed(ErrorView),
}

impl View for Step {
    type V = StepView;

    open spec fn view(&self) -> StepView {
        match self {
            Step::Run(args) => StepView::Run(args.deep_view()),
            Step::Save => StepView::Save,
            Step::Text(text) => StepView::Text(text@),
            Step::Created(agent) => StepView::Created(agent@),
            Step::Removed => StepView::Removed,
            Step::Updated => StepView::Updated,
            Step::Merged => StepView::Merged,
            Step::Failed(e) => StepView::Failed(e@),
        }
    }
}

impl StepView {
    /// The caller has to act and come back.
    pub open spec fn asks(self) -> bool {
        self is Run || self is Save
    }
}

impl Step {
    /// Whether the operation has ended with this step.
    pub fn is_final(&self) -> (ended: bool)
        ensures
            ended == !self@.asks(),
    {
        match self {
            Step::Run(_) => false,
            Step::Save => false,
            _ => true,
        }
    }
}

/// A manager as contracts see it.
pub struct ManagerView {
    /// The root of the repository.
    pub repo_root: Seq<char>,
    /// The snapshot.
    pub state: StateView,
    /// Where the operation in progress stands.
    pub stage: Stage,
    /// The agent that the operation in progress is about.
    pub subject: Option<AgentView>,
}

/// Which question is put to git.
#[derive(Clone, Copy, Debug, PartialEq, Eq, Structural)]
pub enum Question {
    CurrentBranch,
    CurrentCommit,
}

/// `m` with no operation in progress.
pub open spec fn at_rest(m: ManagerView) -> ManagerView {
    ManagerView { stage: Stage::Idle, subject: None, ..m }
}

/// `m` at another stage of the operation on `subject`.
pub open spec fn at_stage(m: ManagerView, stage: Stage, subject: AgentView) -> ManagerView {
    ManagerView { stage, subject: Some(subject), ..m }
}

/// The failure that a failed run of git becomes.
pub open spec fn vcs_failure(stderr: Seq<char>) -> StepView {
    StepView::Failed(ErrorView::VcsCommandFailed { stderr })
}

/// The failure that a failed write of the snapshot becomes.
pub open spec fn storage_failure(detail: Seq<char>) -> StepView {
    StepView::Failed(ErrorView::StorageFailed { detail })
}

/// Where the worktree of the agent `id` lies.
pub open spec fn worktree_path_of(m: ManagerView, id: Seq<char>) -> Seq<char> {
    joined(joined(m.repo_root, m.state.worktree_dir), id)
}

/// The instant that a record holds until its agent's worktree exists.
pub open spec fn unset_time() -> Timestamp {
    Timestamp { secs: 0, nanos: 0 }
}

/// The record of a new agent `id` for `task`, before its base is known.
pub open spec fn draft_of(m: ManagerView, task: Seq<char>, id: Seq<char>) -> AgentView {
    AgentView {
        id,
        branch: branch_name_of(id, slug_of(task)),
        worktree: worktree_path_of(m, id),
        task,
        status: AgentStatus::Running,
        base_branch: Seq::empty(),
        base_commit: Seq::empty(),
        created_at: unset_time(),
        merged_at: None,
    }
}

/// Putting a question to git.
pub open spec fn begun_query(m: ManagerView, question: Question) -> (ManagerView, StepView) {
    if m.stage != Stage::Idle {
        (m, StepView::Failed(ErrorView::OutOfTurn))
    } else {
        (
            ManagerView { stage: Stage::Query, subject: None, ..m },
            StepView::Run(
                match question {
                    Question::CurrentBranch => current_branch_args(),
                    Question::CurrentCommit => current_commit_args(),
                },
            ),
        )
    }
}

/// Beginning to create the agent `id` for `task`.
pub open spec fn begun_create(m: ManagerView, task: Seq<char>, id: Seq<char>) -> (
    ManagerView,
    StepView,
) {
    if m.stage != Stage::Idle {
        (m, StepView::Failed(ErrorView::OutOfTurn))
    } else {
        (
            at_stage(m, Stage::CreateBranch, draft_of(m, task, id)),
            StepView::Run(current_branch_args()),
        )
    }
}

/// Beginning to remove the agent `id`.
pub open spec fn begun_remove(m: ManagerView, id: Seq<char>) -> (ManagerView, StepView) {
    if m.stage != Stage::Idle {
        (m, StepView::Failed(ErrorView::OutOfTurn))
    } else {
        match lookup(m.state.agents, id) {
            None => (m, StepView::Failed(ErrorView::AgentNotFound)),
            Some(agent) => (
                at_stage(m, Stage::RemoveTree, agent),
                StepView::Run(remove_worktree_args(agent.worktree, false)),
            ),
        }
    }
}

/// Beginning to set the status of the agent `id`.
pub open spec fn begun_update(m: ManagerView, id: Seq<char>, status: AgentStatus) -> (
    ManagerView,
    StepView,
) {
    if m.stage != Stage::Idle {
        (m, StepView::Failed(ErrorView::OutOfTurn))
    } else if !has_agent(m.state.agents, id) {
        (m, StepView::Failed(ErrorView::AgentNotFound))
    } else {
        (
            ManagerView {
                state: StateView { agents: with_status(m.state.agents, id, status), ..m.state },
                stage: Stage::UpdateSave,
                subject: None,
                ..m
            },
            StepView::Save,
        )
    }
}

/// Beginning to merge the work of the agent `id`.
pub open spec fn begun_merge(m: ManagerView, id: Seq<char>) -> (ManagerView, StepView) {
    if m.stage != Stage::Idle {
        (m, StepView::Failed(ErrorView::OutOfTurn))
    } else {
        match lookup(m.state.agents, id) {
            None => (m, StepView::Failed(ErrorView::AgentNotFound)),
            Some(agent) => (
                ManagerView {
                    state: StateView {
                        agents: with_status(m.state.agents, id, AgentStatus::Merging),
                        ..m.state
                    },
                    stage: Stage::MergeMark,
                    subject: Some(agent),
                    ..m
                },
                StepView::Save,
            ),
        }
    }
}

/// Going on with the operation on `s` after the report `report`, at the
/// instant `now`.
pub open spec fn resumed_on(
    m: ManagerView,
    s: AgentView,
    report: Result<Seq<char>, Seq<char>>,
    now: Timestamp,
) -> (ManagerView, StepView) {
    match m.stage {
        Stage::CreateBranch => match report {
            Ok(text) => (
                at_stage(m, Stage::CreateCommit, AgentView { base_branch: text, ..s }),
                StepView::Run(current_commit_args()),
            ),
            Err(text) => (at_rest(m), vcs_failure(text)),
        },
        Stage::CreateCommit => match report {
            Ok(text) => (
                at_stage(m, Stage::CreateAdd, AgentView { base_commit: text, ..s }),
                StepView::Run(add_worktree_args(s.branch, s.worktree)),
            ),
            Err(text) => (at_rest(m), vcs_failure(text)),
        },
        Stage::CreateAdd => match report {
            Ok(_) => {
                let agent = AgentView { created_at: now, ..s };
                (
                    ManagerView {
                        state: StateView { agents: with_agent(m.state.agents, agent), ..m.state },
                        stage: Stage::CreateSave,
                        subject: Some(agent),
                        ..m
                    },
                    StepView::Save,
                )
            },
            Err(text) => (at_rest(m), vcs_failure(text)),
        },
        Stage::CreateSave => match report {
            Ok(_) => (at_rest(m), StepView::Created(s)),
            Err(text) => (at_rest(m), storage_failure(text)),
        },
        Stage::RemoveTree => match report {
            Ok(_) => (
                at_stage(m, Stage::RemoveBranch, s),
                StepView::Run(delete_branch_args(s.branch, false)),
            ),
            Err(_) => (
                at_stage(m, Stage::RemoveTreeForced, s),
                StepView::Run(remove_worktree_args(s.worktree, true)),
            ),
        },
        Stage::RemoveTreeForced => (
            at_stage(m, Stage::RemoveBranch, s),
            StepView::Run(delete_branch_args(s.branch, false)),
        ),
        Stage::RemoveBranch => match report {
            Ok(_) => (
                ManagerView {
                    state: StateView { agents: without_agent(m.state.agents, s.id), ..m.state },
                    stage: Stage::RemoveSave,
                    subject: None,
                    ..m
                },
                StepView::Save,
            ),
            Err(_) => (
                at_stage(m, Stage::RemoveBranchForced, s),
                StepView::Run(delete_branch_args(s.branch, true)),
            ),
        },
        Stage::RemoveBranchForced => (
            ManagerView {
                state: StateView { agents: without_agent(m.state.agents, s.id), ..m.state },
                stage: Stage::RemoveSave,
                subject: None,
                ..m
            },
            StepView::Save,
        ),
        Stage::MergeMark => match report {
            Ok(_) => (
                at_stage(m, Stage::MergeCheckout, s),
                StepView::Run(checkout_args(s.base_branch)),
            ),
            Err(text) => (at_rest(m), storage_failure(text)),
        },
        Stage::MergeCheckout => match report {
            Ok(_) => (
                at_stage(m, Stage::MergeRun, s),
                StepView::Run(merge_args(merge_message_of(s.id, s.task), s.branch)),
            ),
            Err(text) => (at_rest(m), vcs_failure(text)),
        },
        Stage::MergeRun => match report {
            Ok(_) => (
                ManagerView {
                    state: StateView { agents: with_merged(m.state.agents, s.id, now), ..m.state },
                    stage: Stage::MergeSave,
                    subject: None,
                    ..m
                },
                StepView::Save,
            ),
            Err(text) => (at_rest(m), vcs_failure(text)),
        },
        _ => (at_rest(m), StepView::Failed(ErrorView::OutOfTurn)),
    }
}

/// Going on with the operation in progress after the report `report`, at the
/// instant `now`.
pub open spec fn resumed(m: ManagerView, report: Result<Seq<char>, Seq<char>>, now: Timestamp) -> (
    ManagerView,
    StepView,
) {
    match m.stage {
        Stage::Idle => (m, StepView::Failed(ErrorView::OutOfTurn)),
        Stage::Query => match report {
            Ok(text) => (at_rest(m), StepView::Text(text)),
            Err(text) => (at_rest(m), vcs_failure(text)),
        },
        Stage::RemoveSave => match report {
            Ok(_) => (at_rest(m), StepView::Removed),
            Err(text) => (at_rest(m), storage_failure(text)),
        },
        Stage::UpdateSave => match report {
            Ok(_) => (at_rest(m), StepView::Updated),
            Err(text) => (at_rest(m), storage_failure(text)),
        },
        Stage::MergeSave => match report {
            Ok(_) => (at_rest(m), StepView::Merged),
            Err(text) => (at_rest(m), storage_failure(text)),
        },
        _ => match m.subject {
            Some(s) => resumed_on(m, s, report, now),
            None => (at_rest(m), StepView::Failed(ErrorView::OutOfTurn)),
        },
    }
}

/// Creating an agent, where git and storage succeed at every step: the
/// caller is asked for the current branch, the current commit, the new
/// worktree and one save, in this order. The operation ends with the new
/// record: it is running, not merged, created at the instant at which the
/// worktree was reported, based on what git answered, and its worktree lies
/// under the repository's worktree directory, named by the identifier. That
/// record is what a lookup of the identifier finds, both in the snapshot that
/// is saved and after the operation.
pub proof fn lemma_create_then_get(
    m: ManagerView,
    task: Seq<char>,
    id: Seq<char>,
    branch: Seq<char>,
    commit: Seq<char>,
    added: Seq<char>,
    saved: Seq<char>,
    t1: Timestamp,
    t2: Timestamp,
    t3: Timestamp,
    t4: Timestamp,
)
    requires
        m.stage == Stage::Idle,
        distinct_ids(m.state.agents),
    ensures
        ({
            let (m1, s1) = begun_create(m, task, id);
            let (m2, s2) = resumed(m1, Ok(branch), t1);
            let (m3, s3) = resumed(m2, Ok(commit), t2);
            let (m4, s4) = resumed(m3, Ok(added), t3);
            let (m5, s5) = resumed(m4, Ok(saved), t4);
            let agent = AgentView {
                id,
                branch: branch_name_of(id, slug_of(task)),
                worktree: joined(joined(m.repo_root, m.state.worktree_dir), id),
                task,
                status: AgentStatus::Running,
                base_branch: branch,
                base_commit: commit,
                created_at: t3,
                merged_at: None,
            };
            &&& s1 == StepView::Run(current_branch_args())
            &&& s2 == StepView::Run(current_commit_args())
            &&& s3 == StepView::Run(add_worktree_args(agent.branch, agent.worktree))
            &&& s4 == StepView::Save
            &&& s5 == StepView::Created(agent)
            &&& m1.state == m.state && m2.state == m.state && m3.state == m.state
            &&& lookup(m4.state.agents, id) == Some(agent)
            &&& m5.state == m4.state
            &&& lookup(m5.state.agents, id) == Some(agent)
            &&& distinct_ids(m5.state.agents)
            &&& m5.stage == Stage::Idle
        }),
{
    let (m1, s1) = begun_create(m, task, id);
    let (m2, s2) = resumed(m1, Ok(branch), t1);
    let (m3, s3) = resumed(m2, Ok(commit), t2);
    let agent = AgentView { created_at: t3, ..m3.subject->0 };
    lemma_with_agent(m.state.agents, agent);
}

/// Creating an agent, where git fails at any of its three steps: the
/// operation ends with that failure and the snapshot is as it was; no save
/// was asked for.
pub proof fn lemma_create_failure_records_nothing(
    m: ManagerView,
    report: Result<Seq<char>, Seq<char>>,
    at: Timestamp,
)
    requires
        m.stage == Stage::CreateBranch || m.stage == Stage::CreateCommit || m.stage
            == Stage::CreateAdd,
        m.subject is Some,
        report is Err,
    ensures
        resumed(m, report, at) == (at_rest(m), vcs_failure(report->Err_0)),
        resumed(m, report, at).0.state == m.state,
{
}

/// Removing an agent that is not there: the operation ends at once with
/// `AgentNotFound`; the manager and its snapshot are as they were, and no
/// save was asked for.
pub proof fn lemma_remove_unknown(m: ManagerView, id: Seq<char>)
    requires
        m.stage == Stage::Idle,
        !has_agent(m.state.agents, id),
    ensures
        begun_remove(m, id) == (m, StepView::Failed(ErrorView::AgentNotFound)),
{
}

/// Removing an agent that is there, whatever git reports: after the
/// attempts on the worktree and on the branch the agent is out of the
/// snapshot, and a save is asked for.
pub proof fn lemma_remove_forgets_agent(
    m: ManagerView,
    report: Result<Seq<char>, Seq<char>>,
    at: Timestamp,
)
    requires
        m.stage == Stage::RemoveBranchForced || (m.stage == Stage::RemoveBranch && report is Ok),
        m.subject is Some,
        distinct_ids(m.state.agents),
    ensures
        resumed(m, report, at).1 == StepView::Save,
        !has_agent(resumed(m, report, at).0.state.agents, m.subject->0.id),
        resumed(m, report, at).0.state.agents == without_agent(
            m.state.agents,
            m.subject->0.id,
        ),
{
    lemma_without_agent(m.state.agents, m.subject->0.id);
}

/// Merging begins by marking: the first step asks for a save, not for git,
/// and in the snapshot to be saved the agent is merging, with nothing else
/// of its record changed.
pub proof fn lemma_merge_marks_first(m: ManagerView, id: Seq<char>)
    requires
        m.stage == Stage::Idle,
        distinct_ids(m.state.agents),
        has_agent(m.state.agents, id),
    ensures
        ({
            let (m1, s1) = begun_merge(m, id);
            let agent = lookup(m.state.agents, id)->0;
            &&& s1 == StepView::Save
            &&& m1.stage == Stage::MergeMark
            &&& m1.subject == Some(agent)
            &&& lookup(m1.state.agents, id) == Some(
                AgentView { status: AgentStatus::Merging, ..agent },
            )
            &&& distinct_ids(m1.state.agents)
        }),
{
    lemma_with_status(m.state.agents, id, AgentStatus::Merging);
}

/// Merging, from the mark to the merge: git is asked to check out the base
/// branch only once the mark is saved, and to merge the agent's branch only
/// once the checkout succeeded. Neither step touches the snapshot, so the
/// agent is still merging. A failed save, checkout or merge ends the
/// operation with that failure and leaves the snapshot as it was: the agent
/// stays marked as merging, and no instant of merging is set.
pub proof fn lemma_merge_steps_keep_mark(
    m: ManagerView,
    report: Result<Seq<char>, Seq<char>>,
    at: Timestamp,
)
    requires
        m.stage == Stage::MergeMark || m.stage == Stage::MergeCheckout || m.stage
            == Stage::MergeRun,
        m.subject is Some,
    ensures
        ({
            let (next, step) = resumed(m, report, at);
            let s = m.subject->0;
            &&& report is Err ==> next == at_rest(m) && step == (if m.stage == Stage::MergeMark {
                storage_failure(report->Err_0)
            } else {
                vcs_failure(report->Err_0)
            })
            &&& report is Err || m.stage != Stage::MergeRun ==> next.state == m.state
            &&& report is Ok && m.stage == Stage::MergeMark ==> next.stage == Stage::MergeCheckout
                && step == StepView::Run(checkout_args(s.base_branch))
            &&& report is Ok && m.stage == Stage::MergeCheckout ==> next.stage == Stage::MergeRun
                && step == StepView::Run(merge_args(merge_message_of(s.id, s.task), s.branch))
        }),
{
}

/// Merging ends by stamping: once the merge succeeded the agent is marked as
/// merged, with the present instant and nothing else of its record changed,
/// and a save is asked for.
pub proof fn lemma_merge_success_stamps(m: ManagerView, output: Seq<char>, at: Timestamp)
    requires
        m.stage == Stage::MergeRun,
        m.subject is Some,
        distinct_ids(m.state.agents),
        has_agent(m.state.agents, m.subject->0.id),
    ensures
        ({
            let (next, step) = resumed(m, Ok(output), at);
            let id = m.subject->0.id;
            &&& step == StepView::Save
            &&& next.stage == Stage::MergeSave
            &&& lookup(next.state.agents, id) == Some(
                AgentView {
                    status: AgentStatus::Merged,
                    merged_at: Some(at),
                    ..lookup(m.state.agents, id)->0
                },
            )
            &&& distinct_ids(next.state.agents)
        }),
{
    lemma_with_merged(m.state.agents, m.subject->0.id, at);
}

/// A whole merge, where storage and git succeed at every step: a save, the
/// checkout of the base branch, the merge, and a save, in this order. The
/// agent is merging from the first save on and merged, at the instant at
/// which the merge was reported, from the second.
pub proof fn lemma_merge_run(
    m: ManagerView,
    id: Seq<char>,
    r1: Seq<char>,
    r2: Seq<char>,
    r3: Seq<char>,
    r4: Seq<char>,
    t1: Timestamp,
    t2: Timestamp,
    t3: Timestamp,
    t4: Timestamp,
)
    requires
        m.stage == Stage::Idle,
        distinct_ids(m.state.agents),
        has_agent(m.state.agents, id),
    ensures
        ({
            let agent = lookup(m.state.agents, id)->0;
            let (m1, s1) = begun_merge(m, id);
            let (m2, s2) = resumed(m1, Ok(r1), t1);
            let (m3, s3) = resumed(m2, Ok(r2), t2);
            let (m4, s4) = resumed(m3, Ok(r3), t3);
            let (m5, s5) = resumed(m4, Ok(r4), t4);
            let merging = AgentView { status: AgentStatus::Merging, ..agent };
            &&& s1 == StepView::Save
            &&& s2 == StepView::Run(checkout_args(agent.base_branch))
            &&& s3 == StepView::Run(merge_args(merge_message_of(agent.id, agent.task), agent.branch))
            &&& s4 == StepView::Save
            &&& s5 == StepView::Merged
            &&& lookup(m1.state.agents, id) == Some(merging)
            &&& m2.state == m1.state && m3.state == m1.state
            &&& lookup(m4.state.agents, id) == Some(
                AgentView { status: AgentStatus::Merged, merged_at: Some(t3), ..agent },
            )
            &&& m5.state == m4.state
            &&& m5.stage == Stage::Idle
        }),
{
    lemma_with_status(m.state.agents, id, AgentStatus::Merging);
    let (m1, s1) = begun_merge(m, id);
    let (m2, s2) = resumed(m1, Ok(r1), t1);
    let (m3, s3) = resumed(m2, Ok(r2), t2);
    let agent = lookup(m.state.agents, id)->0;
    lemma_index_is_unique(m.state.agents, agent_index(m.state.agents, id));
    assert(agent.id == id);
    assert(has_agent(m1.state.agents, id));
    lemma_with_merged(m1.state.agents, id, t3);
}

/// What a record keeps for life: everything but its status and the instant
/// of its merge.
pub open spec fn same_identity(a: AgentView, b: AgentView) -> bool {
    &&& a.id == b.id
    &&& a.branch == b.branch
    &&& a.worktree == b.worktree
    &&& a.task == b.task
    &&& a.base_branch == b.base_branch
    &&& a.base_commit == b.base_commit
    &&& a.created_at == b.created_at
}

/// The creation that `m` is about to record would take the place of a record
/// that is there: the new identifier is in use.
pub open spec fn collides(m: ManagerView) -> bool {
    m.stage == Stage::CreateAdd && m.subject is Some && has_agent(
        m.state.agents,
        m.subject->0.id,
    )
}

/// No step of an operation makes two records share an identifier.
pub proof fn lemma_steps_keep_ids_distinct(
    m: ManagerView,
    report: Result<Seq<char>, Seq<char>>,
    at: Timestamp,
    id: Seq<char>,
    task: Seq<char>,
    status: AgentStatus,
    question: Question,
)
    requires
        distinct_ids(m.state.agents),
    ensures
        distinct_ids(resumed(m, report, at).0.state.agents),
        distinct_ids(begun_query(m, question).0.state.agents),
        distinct_ids(begun_create(m, task, id).0.state.agents),
        distinct_ids(begun_remove(m, id).0.state.agents),
        distinct_ids(begun_update(m, id, status).0.state.agents),
        distinct_ids(begun_merge(m, id).0.state.agents),
{
    if has_agent(m.state.agents, id) {
        lemma_with_status(m.state.agents, id, status);
        lemma_with_status(m.state.agents, id, AgentStatus::Merging);
    }
    if m.subject is Some {
        let s = m.subject->0;
        lemma_with_agent(m.state.agents, AgentView { created_at: at, ..s });
        lemma_without_agent(m.state.agents, s.id);
        if has_agent(m.state.agents, s.id) {
            lemma_with_merged(m.state.agents, s.id, at);
        }
    }
}

/// A record keeps its identity through every step of every operation: while
/// it is in the snapshot, only its status and the instant of its merge
/// change. The one step that is left out is the recording of a new agent
/// under an identifier that is in use, which takes the place of the record
/// that was there.
pub proof fn lemma_steps_keep_identity(
    m: ManagerView,
    report: Result<Seq<char>, Seq<char>>,
    at: Timestamp,
    id: Seq<char>,
    status: AgentStatus,
    other: Seq<char>,
    task: Seq<char>,
)
    requires
        distinct_ids(m.state.agents),
        !collides(m),
        has_agent(m.state.agents, id),
    ensures
        ({
            let before = lookup(m.state.agents, id)->0;
            let kept = |after: ManagerView|
                lookup(after.state.agents, id) matches Some(a) ==> same_identity(before, a);
            &&& kept(resumed(m, report, at).0)
            &&& kept(begun_create(m, task, other).0)
            &&& kept(begun_remove(m, other).0)
            &&& kept(begun_update(m, other, status).0)
            &&& kept(begun_merge(m, other).0)
        }),
{
    let agents = m.state.agents;
    let before = lookup(agents, id)->0;
    lemma_index_is_unique(agents, agent_index(agents, id));
    assert(before.id == id);
    // beginning to update or to merge sets the status of `other`
    if other == id {
        lemma_with_status(agents, id, status);
        lemma_with_status(agents, id, AgentStatus::Merging);
    } else {
        lemma_others_stay(agents, AgentView { id: other, ..before }, status, at, id);
        lemma_others_stay(
            agents,
            AgentView { id: other, ..before },
            AgentStatus::Merging,
            at,
            id,
        );
    }
    // going on changes the record of the subject at most
    if m.subject is Some {
        let s = m.subject->0;
        if s.id == id {
            lemma_with_merged(agents, id, at);
        } else {
            lemma_others_stay(agents, AgentView { created_at: at, ..s }, status, at, id);
        }
    }
}

/// Going on with an operation changes a record that stays in the snapshot
/// in one case only: a merge that succeeded marks its agent as merged and
/// stamps the instant. So the instant of the merge is set by a successful
/// merge and by nothing else. As in `lemma_steps_keep_identity`, the
/// recording of a new agent under an identifier that is in use is left out.
pub proof fn lemma_only_a_merge_stamps(
    m: ManagerView,
    report: Result<Seq<char>, Seq<char>>,
    at: Timestamp,
    id: Seq<char>,
)
    requires
        distinct_ids(m.state.agents),
        !collides(m),
        has_agent(m.state.agents, id),
    ensures
        ({
            let before = lookup(m.state.agents, id)->0;
            let merged = m.stage == Stage::MergeRun && report is Ok && m.subject is Some
                && m.subject->0.id == id;
            lookup(resumed(m, report, at).0.state.agents, id) matches Some(after) ==> after == (
            if merged {
                AgentView { status: AgentStatus::Merged, merged_at: Some(at), ..before }
            } else {
                before
            })
        }),
{
    let agents = m.state.agents;
    if m.subject is Some {
        let s = m.subject->0;
        if s.id == id {
            lemma_with_merged(agents, id, at);
            lemma_without_agent(agents, id);
        } else {
            lemma_others_stay(agents, AgentView { created_at: at, ..s }, s.status, at, id);
        }
    }
}

} // verus!
