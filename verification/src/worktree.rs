//! Agents and the snapshot that records them.

use vstd::prelude::*;
use crate::clock::{now, Timestamp};
use crate::error::{Error, ErrorView};
use crate::git;
use crate::lifecycle::{
    begun_create, begun_merge, begun_query, begun_remove, begun_update, resumed, ManagerView,
    Question, Stage, Step,
};
use crate::naming::{branch_name, generate_id, is_generated_id, merge_message};
use crate::text::{join_path, joined, text_result};

verus! {

/// Where an agent stands in its life.
#[derive(Clone, Copy, Debug, PartialEq, Eq, Structural)]
pub enum AgentStatus {
    Pending,
    Running,
    Completed,
    Merging,
    Merged,
    Failed,
}

/// One agent: a task, the branch and the worktree it is worked on in, and
/// where that branch started.
#[derive(Debug, PartialEq, Eq)]
pub struct Agent {
    pub id: String,
    pub branch: String,
    pub worktree: String,
    pub task: String,
    pub status: AgentStatus,
    pub base_branch: String,
    pub base_commit: String,
    pub created_at: Timestamp,
    pub merged_at: Option<Timestamp>,
}

/// An `Agent` as contracts see it.
pub struct AgentView {
    pub id: Seq<char>,
    pub branch: Seq<char>,
    pub worktree: Seq<char>,
    pub task: Seq<char>,
    pub status: AgentStatus,
    pub base_branch: Seq<char>,
    pub base_commit: Seq<char>,
    pub created_at: Timestamp,
    pub merged_at: Option<Timestamp>,
}

impl View for Agent {
    type V = AgentView;

    open spec fn view(&self) -> AgentView {
        AgentView {
            id: self.id@,
            branch: self.branch@,
            worktree: self.worktree@,
            task: self.task@,
            status: self.status,
            base_branch: self.base_branch@,
            base_commit: self.base_commit@,
            created_at: self.created_at,
            merged_at: self.merged_at,
        }
    }
}

impl Clone for Agent {
    fn clone(&self) -> (copy: Self)
        ensures
            copy@ == self@,
    {
        Agent {
            id: self.id.clone(),
            branch: self.branch.clone(),
            worktree: self.worktree.clone(),
            task: self.task.clone(),
            status: self.status,
            base_branch: self.base_branch.clone(),
            base_commit: self.base_commit.clone(),
            created_at: self.created_at,
            merged_at: self.merged_at,
        }
    }
}

/// The records of a list of agents, as contracts see them.
pub open spec fn views_of(agents: Seq<Agent>) -> Seq<AgentView> {
    agents.map_values(|a: Agent| a@)
}

/// Some record in `agents` has the identifier `id`.
pub open spec fn has_agent(agents: Seq<AgentView>, id: Seq<char>) -> bool {
    exists|i: int| 0 <= i < agents.len() && #[trigger] agents[i].id == id
}

/// The place in `agents` of a record with the identifier `id`.
pub open spec fn agent_index(agents: Seq<AgentView>, id: Seq<char>) -> int {
    choose|i: int| 0 <= i < agents.len() && #[trigger] agents[i].id == id
}

/// The record with the identifier `id`, if `agents` holds one.
pub open spec fn lookup(agents: Seq<AgentView>, id: Seq<char>) -> Option<AgentView> {
    if has_agent(agents, id) {
        Some(agents[agent_index(agents, id)])
    } else {
        None
    }
}

/// No two records in `agents` have the same identifier.
pub open spec fn distinct_ids(agents: Seq<AgentView>) -> bool {
    forall|i: int, j: int|
        0 <= i < j < agents.len() ==> #[trigger] agents[i].id != #[trigger] agents[j].id
}

/// `agents` with `agent` put in: in the place of the record with its
/// identifier where there is one, behind the others where there is none.
pub open spec fn with_agent(agents: Seq<AgentView>, agent: AgentView) -> Seq<AgentView> {
    if has_agent(agents, agent.id) {
        agents.update(agent_index(agents, agent.id), agent)
    } else {
        agents.push(agent)
    }
}

/// `agents` without the record that has the identifier `id`.
pub open spec fn without_agent(agents: Seq<AgentView>, id: Seq<char>) -> Seq<AgentView> {
    if has_agent(agents, id) {
        agents.remove(agent_index(agents, id))
    } else {
        agents
    }
}

/// `agents` with the status of the record `id` set to `status`.
pub open spec fn with_status(agents: Seq<AgentView>, id: Seq<char>, status: AgentStatus) -> Seq<
    AgentView,
> {
    if has_agent(agents, id) {
        let i = agent_index(agents, id);
        agents.update(i, AgentView { status, ..agents[i] })
    } else {
        agents
    }
}

/// `agents` with the record `id` marked as merged at the instant `at`.
pub open spec fn with_merged(agents: Seq<AgentView>, id: Seq<char>, at: Timestamp) -> Seq<
    AgentView,
> {
    if has_agent(agents, id) {
        let i = agent_index(agents, id);
        agents.update(
            i,
            AgentView { status: AgentStatus::Merged, merged_at: Some(at), ..agents[i] },
        )
    } else {
        agents
    }
}

/// Among records with distinct identifiers, the place of an identifier is
/// the one place where it stands.
pub proof fn lemma_index_is_unique(agents: Seq<AgentView>, i: int)
    requires
        distinct_ids(agents),
        0 <= i < agents.len(),
    ensures
        has_agent(agents, agents[i].id),
        agent_index(agents, agents[i].id) == i,
        lookup(agents, agents[i].id) == Some(agents[i]),
{
    let id = agents[i].id;
    assert(agents[i].id == id);
    let k = agent_index(agents, id);
    if k < i {
        assert(agents[k].id != agents[i].id);
    } else if i < k {
        assert(agents[i].id != agents[k].id);
    }
}

/// A record that was put in is the one found under its identifier, and the
/// identifiers stay distinct.
pub proof fn lemma_with_agent(agents: Seq<AgentView>, agent: AgentView)
    requires
        distinct_ids(agents),
    ensures
        distinct_ids(with_agent(agents, agent)),
        lookup(with_agent(agents, agent), agent.id) == Some(agent),
{
    let after = with_agent(agents, agent);
    if has_agent(agents, agent.id) {
        let i = agent_index(agents, agent.id);
        assert forall|a: int, b: int| 0 <= a < b < after.len() implies after[a].id
            != after[b].id by {
            assert(agents[a].id != agents[b].id);
        }
        assert(after[i] == agent);
        lemma_index_is_unique(after, i);
    } else {
        let i = agents.len() as int;
        assert forall|a: int, b: int| 0 <= a < b < after.len() implies after[a].id
            != after[b].id by {
            if b < agents.len() {
                assert(agents[a].id != agents[b].id);
            } else {
                assert(agents[a].id == after[a].id);
            }
        }
        assert(after[i] == agent);
        lemma_index_is_unique(after, i);
    }
}

/// Setting the status of a record changes its status and nothing else, and
/// the identifiers stay distinct.
pub proof fn lemma_with_status(agents: Seq<AgentView>, id: Seq<char>, status: AgentStatus)
    requires
        distinct_ids(agents),
        has_agent(agents, id),
    ensures
        distinct_ids(with_status(agents, id, status)),
        lookup(with_status(agents, id, status), id) == Some(
            AgentView { status, ..lookup(agents, id)->0 },
        ),
{
    let after = with_status(agents, id, status);
    let i = agent_index(agents, id);
    assert forall|a: int, b: int| 0 <= a < b < after.len() implies after[a].id != after[b].id by {
        assert(agents[a].id != agents[b].id);
    }
    assert(after[i].id == id);
    lemma_index_is_unique(after, i);
}

/// Marking a record as merged sets its status and the instant and nothing
/// else, and the identifiers stay distinct.
pub proof fn lemma_with_merged(agents: Seq<AgentView>, id: Seq<char>, at: Timestamp)
    requires
        distinct_ids(agents),
        has_agent(agents, id),
    ensures
        distinct_ids(with_merged(agents, id, at)),
        lookup(with_merged(agents, id, at), id) == Some(
            AgentView { status: AgentStatus::Merged, merged_at: Some(at), ..lookup(agents, id)->0 },
        ),
{
    let after = with_merged(agents, id, at);
    let i = agent_index(agents, id);
    assert forall|a: int, b: int| 0 <= a < b < after.len() implies after[a].id != after[b].id by {
        assert(agents[a].id != agents[b].id);
    }
    assert(after[i].id == id);
    lemma_index_is_unique(after, i);
}

/// Taking a record out leaves none under its identifier, and the
/// identifiers stay distinct.
pub proof fn lemma_without_agent(agents: Seq<AgentView>, id: Seq<char>)
    requires
        distinct_ids(agents),
    ensures
        distinct_ids(without_agent(agents, id)),
        lookup(without_agent(agents, id), id) is None,
{
    let after = without_agent(agents, id);
    if has_agent(agents, id) {
        let i = agent_index(agents, id);
        assert forall|a: int, b: int| 0 <= a < b < after.len() implies after[a].id
            != after[b].id by {
            let a0 = if a < i { a } else { a + 1 };
            let b0 = if b < i { b } else { b + 1 };
            assert(agents[a0].id != agents[b0].id);
        }
        assert forall|a: int| 0 <= a < after.len() implies after[a].id != id by {
            let a0 = if a < i { a } else { a + 1 };
            if a0 < i {
                assert(agents[a0].id != agents[i].id);
            } else {
                assert(agents[i].id != agents[a0].id);
            }
        }
    }
}

/// Changing the record in one place leaves what is found under the
/// identifiers of the other places.
proof fn lemma_lookup_after_update(
    before: Seq<AgentView>,
    k: int,
    changed: AgentView,
    other: Seq<char>,
)
    requires
        distinct_ids(before),
        0 <= k < before.len(),
        before[k].id != other,
        changed.id == before[k].id,
    ensures
        lookup(before.update(k, changed), other) == lookup(before, other),
{
    let after = before.update(k, changed);
    assert forall|a: int, b: int| 0 <= a < b < after.len() implies after[a].id != after[b].id by {
        assert(before[a].id != before[b].id);
    }
    if has_agent(before, other) {
        let i = agent_index(before, other);
        assert(after[i] == before[i]);
        lemma_index_is_unique(before, i);
        lemma_index_is_unique(after, i);
    } else if has_agent(after, other) {
        let i = agent_index(after, other);
        assert(before[i].id == other);
    }
}

/// Putting a record behind the others leaves what is found under their
/// identifiers.
proof fn lemma_lookup_after_push(before: Seq<AgentView>, added: AgentView, other: Seq<char>)
    requires
        distinct_ids(before),
        !has_agent(before, added.id),
        added.id != other,
    ensures
        lookup(before.push(added), other) == lookup(before, other),
{
    let after = before.push(added);
    assert forall|a: int, b: int| 0 <= a < b < after.len() implies after[a].id != after[b].id by {
        if b < before.len() {
            assert(before[a].id != before[b].id);
        } else {
            assert(before[a].id == after[a].id);
        }
    }
    if has_agent(before, other) {
        let i = agent_index(before, other);
        assert(after[i] == before[i]);
        lemma_index_is_unique(before, i);
        lemma_index_is_unique(after, i);
    } else if has_agent(after, other) {
        let i = agent_index(after, other);
        assert(before[i].id == other);
    }
}

/// Taking a record out leaves what is found under the identifiers of the
/// others.
proof fn lemma_lookup_after_remove(before: Seq<AgentView>, k: int, other: Seq<char>)
    requires
        distinct_ids(before),
        0 <= k < before.len(),
        before[k].id != other,
    ensures
        lookup(before.remove(k), other) == lookup(before, other),
{
    let after = before.remove(k);
    assert forall|a: int, b: int| 0 <= a < b < after.len() implies after[a].id != after[b].id by {
        let a0 = if a < k { a } else { a + 1 };
        let b0 = if b < k { b } else { b + 1 };
        assert(before[a0].id != before[b0].id);
    }
    if has_agent(before, other) {
        let i = agent_index(before, other);
        let j = if i < k { i } else { i - 1 };
        assert(after[j] == before[i]);
        lemma_index_is_unique(before, i);
        lemma_index_is_unique(after, j);
    } else if has_agent(after, other) {
        let j = agent_index(after, other);
        let i = if j < k { j } else { j + 1 };
        assert(before[i].id == other);
    }
}

/// Putting a record in, taking one out, setting a status or marking a merge
/// leaves the records under every other identifier as they were.
pub proof fn lemma_others_stay(
    agents: Seq<AgentView>,
    agent: AgentView,
    status: AgentStatus,
    at: Timestamp,
    other: Seq<char>,
)
    requires
        distinct_ids(agents),
        other != agent.id,
    ensures
        lookup(with_agent(agents, agent), other) == lookup(agents, other),
        lookup(without_agent(agents, agent.id), other) == lookup(agents, other),
        lookup(with_status(agents, agent.id, status), other) == lookup(agents, other),
        lookup(with_merged(agents, agent.id, at), other) == lookup(agents, other),
{
    let id = agent.id;
    if has_agent(agents, id) {
        let k = agent_index(agents, id);
        lemma_lookup_after_update(agents, k, agent, other);
        lemma_lookup_after_update(agents, k, AgentView { status, ..agents[k] }, other);
        lemma_lookup_after_update(
            agents,
            k,
            AgentView { status: AgentStatus::Merged, merged_at: Some(at), ..agents[k] },
            other,
        );
        lemma_lookup_after_remove(agents, k, other);
    } else {
        lemma_lookup_after_push(agents, agent, other);
    }
}

/// The snapshot of everything known about a repository's agents. It is what
/// is written to storage, whole, after every change.
#[derive(Debug, PartialEq, Eq)]
pub struct State {
    version: String,
    repo_root: String,
    worktree_dir: String,
    agents: Vec<Agent>,
}

/// A `State` as contracts see it.
pub struct StateView {
    pub version: Seq<char>,
    pub repo_root: Seq<char>,
    pub worktree_dir: Seq<char>,
    pub agents: Seq<AgentView>,
}

impl View for State {
    type V = StateView;

    closed spec fn view(&self) -> StateView {
        StateView {
            version: self.version@,
            repo_root: self.repo_root@,
            worktree_dir: self.worktree_dir@,
            agents: views_of(self.agents@),
        }
    }
}

/// What storage held when a snapshot was asked for.
#[derive(Debug, PartialEq, Eq)]
pub enum Stored {
    /// Nothing is stored yet.
    Absent,
    /// Something is stored that is no snapshot.
    Corrupt,
    /// The snapshot that is stored.
    Snapshot(State),
}

/// The records as a mapping from identifiers to records.
pub open spec fn mapping(agents: Seq<AgentView>) -> Map<Seq<char>, AgentView> {
    Map::new(|id: Seq<char>| has_agent(agents, id), |id: Seq<char>| lookup(agents, id)->0)
}

/// The mapping of `agents` is `m`, given that a lookup in `agents` finds
/// under every identifier what `m` holds under it.
proof fn lemma_mapping_by_lookup(agents: Seq<AgentView>, m: Map<Seq<char>, AgentView>)
    requires
        forall|k: Seq<char>|
            #[trigger] lookup(agents, k) == (if m.dom().contains(k) {
                Some(m[k])
            } else {
                None
            }),
    ensures
        mapping(agents) == m,
{
    assert forall|k: Seq<char>| #[trigger] mapping(agents).dom().contains(k) == m.dom().contains(
        k,
    ) by {
        assert(lookup(agents, k) is Some <==> has_agent(agents, k));
    }
    assert forall|k: Seq<char>| mapping(agents).dom().contains(k) implies #[trigger] mapping(
        agents,
    )[k] == m[k] by {
        assert(lookup(agents, k) == Some(m[k]));
    }
    assert(mapping(agents) =~= m);
}

/// Records with distinct identifiers behave as a mapping from identifiers to
/// records: putting one in is an insertion under its identifier, taking one
/// out is a removal, and setting a status or marking a merge is an insertion
/// of the changed record.
pub proof fn lemma_mapping(
    agents: Seq<AgentView>,
    agent: AgentView,
    status: AgentStatus,
    at: Timestamp,
)
    requires
        distinct_ids(agents),
    ensures
        mapping(with_agent(agents, agent)) == mapping(agents).insert(agent.id, agent),
        mapping(without_agent(agents, agent.id)) == mapping(agents).remove(agent.id),
        has_agent(agents, agent.id) ==> mapping(with_status(agents, agent.id, status)) == mapping(
            agents,
        ).insert(agent.id, AgentView { status, ..mapping(agents)[agent.id] }),
        has_agent(agents, agent.id) ==> mapping(with_merged(agents, agent.id, at)) == mapping(
            agents,
        ).insert(
            agent.id,
            AgentView {
                status: AgentStatus::Merged,
                merged_at: Some(at),
                ..mapping(agents)[agent.id]
            },
        ),
{
    let id = agent.id;
    let before = mapping(agents);
    lemma_with_agent(agents, agent);
    lemma_without_agent(agents, id);
    let put = before.insert(id, agent);
    assert forall|k: Seq<char>|
        #[trigger] lookup(with_agent(agents, agent), k) == (if put.dom().contains(k) {
            Some(put[k])
        } else {
            None
        }) by {
        if k != id {
            lemma_others_stay(agents, agent, status, at, k);
        }
    }
    lemma_mapping_by_lookup(with_agent(agents, agent), put);
    let taken = before.remove(id);
    assert forall|k: Seq<char>|
        #[trigger] lookup(without_agent(agents, id), k) == (if taken.dom().contains(k) {
            Some(taken[k])
        } else {
            None
        }) by {
        if k != id {
            lemma_others_stay(agents, agent, status, at, k);
        }
    }
    lemma_mapping_by_lookup(without_agent(agents, id), taken);
    if has_agent(agents, id) {
        lemma_with_status(agents, id, status);
        lemma_with_merged(agents, id, at);
        let set = before.insert(id, AgentView { status, ..before[id] });
        assert forall|k: Seq<char>|
            #[trigger] lookup(with_status(agents, id, status), k) == (if set.dom().contains(k) {
                Some(set[k])
            } else {
                None
            }) by {
            if k != id {
                lemma_others_stay(agents, agent, status, at, k);
            }
        }
        lemma_mapping_by_lookup(with_status(agents, id, status), set);
        let marked = before.insert(
            id,
            AgentView { status: AgentStatus::Merged, merged_at: Some(at), ..before[id] },
        );
        assert forall|k: Seq<char>|
            #[trigger] lookup(with_merged(agents, id, at), k) == (if marked.dom().contains(k) {
                Some(marked[k])
            } else {
                None
            }) by {
            if k != id {
                lemma_others_stay(agents, agent, status, at, k);
            }
        }
        lemma_mapping_by_lookup(with_merged(agents, id, at), marked);
    }
}

/// Every record is filed under its own identifier.
pub open spec fn filed_rightly(entries: Seq<(String, Agent)>) -> bool {
    forall|i: int| 0 <= i < entries.len() ==> (#[trigger] entries[i]).0@ == entries[i].1@.id
}

/// The records of a list of filed records, as contracts see them.
pub open spec fn filed_records(entries: Seq<(String, Agent)>) -> Seq<AgentView> {
    entries.map_values(|e: (String, Agent)| e.1@)
}

/// The snapshot of a repository of which nothing is recorded yet.
pub open spec fn fresh_state(repo_root: Seq<char>) -> StateView {
    StateView {
        version: "1.0"@,
        repo_root,
        worktree_dir: ".worktrees"@,
        agents: Seq::empty(),
    }
}

/// Where the snapshot of the repository at `repo_root` is stored.
pub open spec fn state_file_of(repo_root: Seq<char>) -> Seq<char> {
    joined(joined(repo_root, ".cwt"@), "state.json"@)
}

impl State {
    /// The snapshot keeps one record for each identifier.
    pub closed spec fn wf(&self) -> bool {
        distinct_ids(views_of(self.agents@))
    }

    /// Whether the snapshot keeps one record for each identifier, stated
    /// over what contracts see of it.
    pub proof fn lemma_wf(&self)
        ensures
            self.wf() <==> distinct_ids(self@.agents),
    {
    }

    /// The snapshot of a repository of which nothing is recorded yet.
    pub fn new(repo_root: String) -> (state: State)
        ensures
            state.wf(),
            state@ == fresh_state(repo_root@),
    {
        let state = State {
            version: "1.0".to_owned(),
            repo_root,
            worktree_dir: ".worktrees".to_owned(),
            agents: Vec::new(),
        };
        assert(views_of(state.agents@) =~= Seq::<AgentView>::empty());
        state
    }

    /// Where the snapshot of the repository at `repo_root` is stored.
    pub fn state_file(repo_root: &str) -> (path: String)
        ensures
            path@ == state_file_of(repo_root@),
    {
        let dir = join_path(repo_root, ".cwt");
        join_path(dir.as_str(), "state.json")
    }

    /// The snapshot to start from, given what storage held: a fresh one where
    /// nothing is stored, the stored one where it is sound, and no snapshot
    /// but `CorruptState` where what is stored cannot be used.
    pub fn load(repo_root: &str, stored: Stored) -> (loaded: Result<State, Error>)
        ensures
            match stored {
                Stored::Absent => loaded is Ok && loaded->Ok_0.wf() && loaded->Ok_0@ == fresh_state(
                    repo_root@,
                ),
                Stored::Corrupt => loaded is Err && loaded->Err_0@ == ErrorView::CorruptState,
                Stored::Snapshot(state) => if state.wf() {
                    loaded == Ok::<State, Error>(state)
                } else {
                    loaded is Err && loaded->Err_0@ == ErrorView::CorruptState
                },
            },
    {
        match stored {
            Stored::Absent => Ok(State::new(repo_root.to_owned())),
            Stored::Corrupt => Err(Error::CorruptState),
            Stored::Snapshot(state) => {
                if state.ids_are_distinct() {
                    Ok(state)
                } else {
                    Err(Error::CorruptState)
                }
            },
        }
    }

    /// The snapshot with the given contents, or `CorruptState` where two of
    /// the records share an identifier.
    pub fn from_parts(
        version: String,
        repo_root: String,
        worktree_dir: String,
        agents: Vec<Agent>,
    ) -> (made: Result<State, Error>)
        ensures
            match made {
                Ok(state) => state.wf() && distinct_ids(views_of(agents@)) && state@ == (StateView {
                    version: version@,
                    repo_root: repo_root@,
                    worktree_dir: worktree_dir@,
                    agents: views_of(agents@),
                }),
                Err(e) => !distinct_ids(views_of(agents@)) && e@ == ErrorView::CorruptState,
            },
    {
        let state = State { version, repo_root, worktree_dir, agents };
        if state.ids_are_distinct() {
            Ok(state)
        } else {
            Err(Error::CorruptState)
        }
    }

    /// The snapshot with the given contents, where each record comes under
    /// the identifier it was filed under; or `CorruptState` where a record
    /// was filed under another identifier than its own, or two records share
    /// one.
    pub fn from_entries(
        version: String,
        repo_root: String,
        worktree_dir: String,
        entries: Vec<(String, Agent)>,
    ) -> (made: Result<State, Error>)
        ensures
            match made {
                Ok(state) => state.wf() && filed_rightly(entries@) && distinct_ids(
                    filed_records(entries@),
                ) && state@ == (StateView {
                    version: version@,
                    repo_root: repo_root@,
                    worktree_dir: worktree_dir@,
                    agents: filed_records(entries@),
                }),
                Err(e) => !(filed_rightly(entries@) && distinct_ids(filed_records(entries@)))
                    && e@ == ErrorView::CorruptState,
            },
    {
        let ghost filed = entries@;
        let mut agents: Vec<Agent> = Vec::new();
        let mut i: usize = 0;
        assert(views_of(agents@) =~= filed_records(filed.take(0)));
        while i < entries.len()
            invariant
                i <= entries.len(),
                filed == entries@,
                views_of(agents@) == filed_records(filed.take(i as int)),
                filed_rightly(filed.take(i as int)),
            decreases entries.len() - i,
        {
            if !entries[i].0.as_str().eq(entries[i].1.id.as_str()) {
                assert(!filed_rightly(filed));
                return Err(Error::CorruptState);
            }
            let ghost before = views_of(agents@);
            agents.push(entries[i].1.clone());
            proof {
                let n = i as int;
                assert(views_of(agents@) =~= before.push(filed[n].1@));
                assert(filed_records(filed.take(n + 1)) =~= filed_records(filed.take(n)).push(
                    filed[n].1@,
                ));
                assert forall|k: int| 0 <= k < n + 1 implies (#[trigger] filed.take(n + 1)[k]).0@
                    == filed.take(n + 1)[k].1@.id by {
                    if k < n {
                        assert(filed.take(n)[k] == filed.take(n + 1)[k]);
                    }
                }
            }
            i += 1;
        }
        assert(filed.take(filed.len() as int) =~= filed);
        State::from_parts(version, repo_root, worktree_dir, agents)
    }

    /// Whether no two records share an identifier.
    fn ids_are_distinct(&self) -> (distinct: bool)
        ensures
            distinct == self.wf(),
    {
        let ghost views = views_of(self.agents@);
        let n: usize = self.agents.len();
        let mut j: usize = 0;
        while j < n
            invariant
                j <= n,
                n == self.agents.len(),
                views == views_of(self.agents@),
                forall|a: int, b: int| 0 <= a < b < j ==> views[a].id != views[b].id,
            decreases n - j,
        {
            let mut i: usize = 0;
            while i < j
                invariant
                    i <= j < n,
                    n == self.agents.len(),
                    views == views_of(self.agents@),
                    forall|a: int| 0 <= a < i ==> views[a].id != views[j as int].id,
                decreases j - i,
            {
                if self.agents[i].id.as_str().eq(self.agents[j].id.as_str()) {
                    assert(views[i as int].id == views[j as int].id);
                    return false;
                }
                i += 1;
            }
            j += 1;
        }
        true
    }

    /// The version of the snapshot's format.
    pub fn version(&self) -> (version: &String)
        ensures
            version@ == self@.version,
    {
        &self.version
    }

    /// The root of the repository, as the snapshot records it.
    pub fn repo_root(&self) -> (root: &String)
        ensures
            root@ == self@.repo_root,
    {
        &self.repo_root
    }

    /// The directory under the repository's root that holds the worktrees.
    pub fn worktree_dir(&self) -> (dir: &String)
        ensures
            dir@ == self@.worktree_dir,
    {
        &self.worktree_dir
    }

    /// The records, in the order in which their identifiers were first put in.
    pub fn agents(&self) -> (agents: &Vec<Agent>)
        ensures
            views_of(agents@) == self@.agents,
    {
        &self.agents
    }

    /// The place of the record `id`, if there is one.
    fn find(&self, id: &str) -> (place: Option<usize>)
        ensures
            match place {
                Some(i) => i < self.agents.len() && self.agents[i as int].id@ == id@
                    && has_agent(self@.agents, id@),
                None => !has_agent(self@.agents, id@),
            },
            self.wf() && place is Some ==> has_agent(self@.agents, id@) && agent_index(
                self@.agents,
                id@,
            ) == place->0,
    {
        let ghost views = views_of(self.agents@);
        let n: usize = self.agents.len();
        let mut i: usize = 0;
        while i < n
            invariant
                i <= n,
                n == self.agents.len(),
                views == views_of(self.agents@),
                forall|a: int| 0 <= a < i ==> views[a].id != id@,
            decreases n - i,
        {
            if self.agents[i].id.as_str().eq(id) {
                proof {
                    assert(views[i as int].id == id@);
                    if self.wf() {
                        lemma_index_is_unique(views, i as int);
                    }
                }
                return Some(i);
            }
            i += 1;
        }
        None
    }

    /// The record `id`, if there is one.
    pub fn get(&self, id: &str) -> (found: Option<&Agent>)
        requires
            self.wf(),
        ensures
            match found {
                Some(agent) => lookup(self@.agents, id@) == Some(agent@),
                None => lookup(self@.agents, id@) is None,
            },
    {
        match self.find(id) {
            Some(i) => Some(&self.agents[i]),
            None => None,
        }
    }

    /// Puts `agent` in, in the place of the record with its identifier where
    /// there is one.
    pub fn insert(&mut self, agent: Agent)
        requires
            old(self).wf(),
        ensures
            final(self).wf(),
            final(self)@ == (StateView { agents: with_agent(old(self)@.agents, agent@), ..old(self)@ }),
    {
        let ghost before = views_of(self.agents@);
        match self.find(agent.id.as_str()) {
            Some(i) => {
                self.agents.set(i, agent);
                proof {
                    let after = views_of(self.agents@);
                    assert(after =~= before.update(i as int, agent@));
                    assert forall|a: int, b: int| 0 <= a < b < after.len() implies after[a].id
                        != after[b].id by {
                        assert(before[a].id != before[b].id);
                    }
                }
            },
            None => {
                self.agents.push(agent);
                proof {
                    let after = views_of(self.agents@);
                    assert(after =~= before.push(agent@));
                    assert forall|a: int, b: int| 0 <= a < b < after.len() implies after[a].id
                        != after[b].id by {
                        if b < before.len() {
                            assert(before[a].id != before[b].id);
                        } else {
                            assert(before[a].id == after[a].id);
                        }
                    }
                }
            },
        }
    }

    /// Takes the record `id` out, if there is one.
    pub fn remove(&mut self, id: &str) -> (removed: Option<Agent>)
        requires
            old(self).wf(),
        ensures
            final(self).wf(),
            final(self)@ == (StateView {
                agents: without_agent(old(self)@.agents, id@),
                ..old(self)@
            }),
            match removed {
                Some(agent) => lookup(old(self)@.agents, id@) == Some(agent@),
                None => lookup(old(self)@.agents, id@) is None,
            },
            !has_agent(final(self)@.agents, id@),
    {
        let ghost before = views_of(self.agents@);
        match self.find(id) {
            Some(i) => {
                let agent = self.agents.remove(i);
                proof {
                    let after = views_of(self.agents@);
                    assert(after =~= before.remove(i as int));
                    assert forall|a: int, b: int| 0 <= a < b < after.len() implies after[a].id
                        != after[b].id by {
                        let a0 = if a < i { a } else { a + 1 };
                        let b0 = if b < i { b } else { b + 1 };
                        assert(before[a0].id != before[b0].id);
                    }
                    assert forall|a: int| 0 <= a < after.len() implies after[a].id != id@ by {
                        let a0 = if a < i { a } else { a + 1 };
                        if a0 < i {
                            assert(before[a0].id != before[i as int].id);
                        } else {
                            assert(before[i as int].id != before[a0].id);
                        }
                    }
                }
                Some(agent)
            },
            None => None,
        }
    }

    /// Sets the status of the record `id`; tells whether there is such a record.
    pub fn set_status(&mut self, id: &str, status: AgentStatus) -> (found: bool)
        requires
            old(self).wf(),
        ensures
            final(self).wf(),
            found == has_agent(old(self)@.agents, id@),
            final(self)@ == (StateView {
                agents: with_status(old(self)@.agents, id@, status),
                ..old(self)@
            }),
    {
        let ghost before = views_of(self.agents@);
        match self.find(id) {
            Some(i) => {
                let mut agent = self.agents[i].clone();
                agent.status = status;
                self.agents.set(i, agent);
                proof {
                    let after = views_of(self.agents@);
                    assert(after =~= before.update(
                        i as int,
                        AgentView { status, ..before[i as int] },
                    ));
                    assert forall|a: int, b: int| 0 <= a < b < after.len() implies after[a].id
                        != after[b].id by {
                        assert(before[a].id != before[b].id);
                    }
                }
                true
            },
            None => false,
        }
    }

    /// Marks the record `id` as merged at the instant `at`; tells whether
    /// there is such a record.
    pub fn set_merged(&mut self, id: &str, at: Timestamp) -> (found: bool)
        requires
            old(self).wf(),
        ensures
            final(self).wf(),
            found == has_agent(old(self)@.agents, id@),
            final(self)@ == (StateView {
                agents: with_merged(old(self)@.agents, id@, at),
                ..old(self)@
            }),
    {
        let ghost before = views_of(self.agents@);
        match self.find(id) {
            Some(i) => {
                let mut agent = self.agents[i].clone();
                agent.status = AgentStatus::Merged;
                agent.merged_at = Some(at);
                self.agents.set(i, agent);
                proof {
                    let after = views_of(self.agents@);
                    assert(after =~= before.update(
                        i as int,
                        AgentView {
                            status: AgentStatus::Merged,
                            merged_at: Some(at),
                            ..before[i as int]
                        },
                    ));
                    assert forall|a: int, b: int| 0 <= a < b < after.len() implies after[a].id
                        != after[b].id by {
                        assert(before[a].id != before[b].id);
                    }
                }
                true
            },
            None => false,
        }
    }
}

/// The snapshot that a manager starts from, given what storage held; none
/// where what is stored cannot be used.
pub open spec fn loaded_from(repo_root: Seq<char>, stored: Stored) -> Option<StateView> {
    match stored {
        Stored::Absent => Some(fresh_state(repo_root)),
        Stored::Corrupt => None,
        Stored::Snapshot(state) => if state.wf() {
            Some(state@)
        } else {
            None
        },
    }
}

/// The agents of one repository and the operation on them that is in
/// progress, if any. See the module `lifecycle` for how operations run.
#[derive(Debug)]
pub struct Manager {
    repo_root: String,
    state: State,
    stage: Stage,
    subject: Option<Agent>,
}

impl View for Manager {
    type V = ManagerView;

    closed spec fn view(&self) -> ManagerView {
        ManagerView {
            repo_root: self.repo_root@,
            state: self.state@,
            stage: self.stage,
            subject: match self.subject {
                Some(agent) => Some(agent@),
                None => None,
            },
        }
    }
}

impl Manager {
    /// The snapshot keeps one record for each identifier.
    pub closed spec fn wf(&self) -> bool {
        self.state.wf()
    }

    /// Whether the snapshot keeps one record for each identifier, stated
    /// over what contracts see of the manager.
    pub proof fn lemma_wf(&self)
        ensures
            self.wf() <==> distinct_ids(self@.state.agents),
    {
        self.state.lemma_wf();
    }

    /// The manager of the repository at `repo_root`, given whether a git
    /// repository is there and what storage held. It fails with
    /// `NotARepository` where there is none, and with `CorruptState` where
    /// what is stored cannot be used.
    pub fn new(repo_root: String, is_repository: bool, stored: Stored) -> (made: Result<
        Manager,
        Error,
    >)
        ensures
            match made {
                Ok(m) => is_repository && m.wf() && loaded_from(repo_root@, stored) == Some(
                    m@.state,
                ) && m@.repo_root == repo_root@ && m@.stage == Stage::Idle && m@.subject is None,
                Err(e) => if is_repository {
                    loaded_from(repo_root@, stored) is None && e@ == ErrorView::CorruptState
                } else {
                    e@ == (ErrorView::NotARepository { path: repo_root@ })
                },
            },
    {
        if !is_repository {
            return Err(Error::NotARepository { path: repo_root });
        }
        match State::load(repo_root.as_str(), stored) {
            Ok(state) => Ok(Manager { repo_root, state, stage: Stage::Idle, subject: None }),
            Err(e) => Err(e),
        }
    }

    /// The root of the repository.
    pub fn repo_root(&self) -> (root: &str)
        ensures
            root@ == self@.repo_root,
    {
        self.repo_root.as_str()
    }

    /// The snapshot, as it is to be written to storage.
    pub fn state(&self) -> (state: &State)
        ensures
            state@ == self@.state,
            self.wf() ==> state.wf(),
    {
        &self.state
    }

    /// Whether no operation is in progress.
    pub fn is_idle(&self) -> (idle: bool)
        ensures
            idle == (self@.stage == Stage::Idle),
    {
        match self.stage {
            Stage::Idle => true,
            _ => false,
        }
    }

    /// The record of the agent `id`, if there is one.
    pub fn get_agent(&self, id: &str) -> (found: Option<&Agent>)
        requires
            self.wf(),
        ensures
            match found {
                Some(agent) => lookup(self@.state.agents, id@) == Some(agent@),
                None => lookup(self@.state.agents, id@) is None,
            },
    {
        self.state.get(id)
    }

    /// The records of all agents.
    pub fn list_agents(&self) -> (list: Vec<&Agent>)
        ensures
            list.len() == self@.state.agents.len(),
            forall|i: int| 0 <= i < list.len() ==> (#[trigger] list[i])@ == self@.state.agents[i],
    {
        let agents = self.state.agents();
        let mut list: Vec<&Agent> = Vec::new();
        let mut i: usize = 0;
        while i < agents.len()
            invariant
                i <= agents.len(),
                views_of(agents@) == self@.state.agents,
                list.len() == i,
                forall|k: int| 0 <= k < i ==> (#[trigger] list[k])@ == self@.state.agents[k],
            decreases agents.len() - i,
        {
            list.push(&agents[i]);
            i += 1;
        }
        list
    }

    /// Begins to ask git for the name of the branch that is checked out. The
    /// operation ends with `Step::Text` and that name.
    pub fn current_branch(&mut self) -> (step: Step)
        requires
            old(self).wf(),
        ensures
            final(self).wf(),
            (final(self)@, step@) == begun_query(old(self)@, Question::CurrentBranch),
    {
        match self.stage {
            Stage::Idle => {
                self.stage = Stage::Query;
                self.subject = None;
                Step::Run(git::current_branch())
            },
            _ => Step::Failed(Error::OutOfTurn),
        }
    }

    /// Begins to ask git for the commit that is checked out. The operation
    /// ends with `Step::Text` and that commit.
    pub fn current_commit(&mut self) -> (step: Step)
        requires
            old(self).wf(),
        ensures
            final(self).wf(),
            (final(self)@, step@) == begun_query(old(self)@, Question::CurrentCommit),
    {
        match self.stage {
            Stage::Idle => {
                self.stage = Stage::Query;
                self.subject = None;
                Step::Run(git::current_commit())
            },
            _ => Step::Failed(Error::OutOfTurn),
        }
    }

    /// Begins to create an agent for `task` under the identifier `id`: asks
    /// for the base branch and commit, adds a worktree on a new branch, and
    /// only then records the agent, as running, and saves the snapshot. A
    /// failure of git ends the operation with nothing recorded.
    pub fn create_worktree_as(&mut self, task: &str, id: String) -> (step: Step)
        requires
            old(self).wf(),
        ensures
            final(self).wf(),
            (final(self)@, step@) == begun_create(old(self)@, task@, id@),
    {
        match self.stage {
            Stage::Idle => {
                let branch = branch_name(id.as_str(), task);
                let dir = join_path(self.repo_root.as_str(), self.state.worktree_dir().as_str());
                let worktree = join_path(dir.as_str(), id.as_str());
                let draft = Agent {
                    id,
                    branch,
                    worktree,
                    task: task.to_owned(),
                    status: AgentStatus::Running,
                    base_branch: String::new(),
                    base_commit: String::new(),
                    created_at: Timestamp { secs: 0, nanos: 0 },
                    merged_at: None,
                };
                self.stage = Stage::CreateBranch;
                self.subject = Some(draft);
                Step::Run(git::current_branch())
            },
            _ => Step::Failed(Error::OutOfTurn),
        }
    }

    /// Begins to create an agent for `task` under a new identifier, as
    /// `create_worktree_as` does.
    pub fn create_worktree(&mut self, task: &str) -> (step: Step)
        requires
            old(self).wf(),
        ensures
            final(self).wf(),
            exists|id: Seq<char>|
                is_generated_id(id) && (final(self)@, step@) == #[trigger] begun_create(
                    old(self)@,
                    task@,
                    id,
                ),
    {
        let id = generate_id();
        self.create_worktree_as(task, id)
    }

    /// Begins to remove the agent `id`: removes its worktree and deletes its
    /// branch, each by force where the first attempt fails and whether or
    /// not that succeeds, then takes the agent out of the snapshot and saves
    /// it. Where there is no such agent the operation ends at once with
    /// `AgentNotFound`, and nothing is changed or saved.
    pub fn remove_worktree(&mut self, id: &str) -> (step: Step)
        requires
            old(self).wf(),
        ensures
            final(self).wf(),
            (final(self)@, step@) == begun_remove(old(self)@, id@),
    {
        match self.stage {
            Stage::Idle => {
                let found = match self.state.get(id) {
                    Some(agent) => Some(agent.clone()),
                    None => None,
                };
                match found {
                    Some(agent) => {
                        let args = git::remove_worktree(agent.worktree.as_str(), false);
                        self.stage = Stage::RemoveTree;
                        self.subject = Some(agent);
                        Step::Run(args)
                    },
                    None => Step::Failed(Error::AgentNotFound),
                }
            },
            _ => Step::Failed(Error::OutOfTurn),
        }
    }

    /// Begins to set the status of the agent `id`: sets it and saves the
    /// snapshot. Where there is no such agent the operation ends at once
    /// with `AgentNotFound`, and nothing is changed or saved.
    pub fn update_status(&mut self, id: &str, status: AgentStatus) -> (step: Step)
        requires
            old(self).wf(),
        ensures
            final(self).wf(),
            (final(self)@, step@) == begun_update(old(self)@, id@, status),
    {
        match self.stage {
            Stage::Idle => {
                if self.state.set_status(id, status) {
                    self.stage = Stage::UpdateSave;
                    self.subject = None;
                    Step::Save
                } else {
                    Step::Failed(Error::AgentNotFound)
                }
            },
            _ => Step::Failed(Error::OutOfTurn),
        }
    }

    /// Begins to merge the work of the agent `id` into its base branch:
    /// marks the agent as merging and saves the snapshot; only then checks
    /// out the base branch and merges the agent's branch; and where both
    /// succeed marks the agent as merged, with the instant, and saves again.
    /// A failure of git ends the operation and leaves the agent marked as
    /// merging. Where there is no such agent the operation ends at once with
    /// `AgentNotFound`, and nothing is changed or saved.
    pub fn merge(&mut self, id: &str) -> (step: Step)
        requires
            old(self).wf(),
        ensures
            final(self).wf(),
            (final(self)@, step@) == begun_merge(old(self)@, id@),
    {
        match self.stage {
            Stage::Idle => {
                let found = match self.state.get(id) {
                    Some(agent) => Some(agent.clone()),
                    None => None,
                };
                match found {
                    Some(agent) => {
                        self.state.set_status(id, AgentStatus::Merging);
                        self.stage = Stage::MergeMark;
                        self.subject = Some(agent);
                        Step::Save
                    },
                    None => Step::Failed(Error::AgentNotFound),
                }
            },
            _ => Step::Failed(Error::OutOfTurn),
        }
    }

    /// Goes on with the operation in progress: `report` is what the action
    /// that the last step asked for came to, `Ok` with its output or `Err`
    /// with its diagnostics. The instant that is recorded where an agent is
    /// created or merged is read from the clock.
    pub fn resume(&mut self, report: Result<String, String>) -> (step: Step)
        requires
            old(self).wf(),
        ensures
            final(self).wf(),
            exists|at: Timestamp|
                (final(self)@, step@) == #[trigger] resumed(old(self)@, text_result(report), at),
    {
        let at = now();
        self.resume_at(report, at)
    }

    /// Goes on with the operation in progress as `resume` does, with `at` as
    /// the present instant.
    pub fn resume_at(&mut self, report: Result<String, String>, at: Timestamp) -> (step: Step)
        requires
            old(self).wf(),
        ensures
            final(self).wf(),
            (final(self)@, step@) == resumed(old(self)@, text_result(report), at),
    {
        let stage = self.stage;
        match stage {
            Stage::Idle => {
                return Step::Failed(Error::OutOfTurn);
            },
            _ => {},
        }
        let subject = self.subject.take();
        self.stage = Stage::Idle;
        match stage {
            Stage::Query => {
                return match report {
                    Ok(text) => Step::Text(text),
                    Err(text) => Step::Failed(Error::VcsCommandFailed { stderr: text }),
                };
            },
            Stage::RemoveSave => {
                return match report {
                    Ok(_) => Step::Removed,
                    Err(text) => Step::Failed(Error::StorageFailed { detail: text }),
                };
            },
            Stage::UpdateSave => {
                return match report {
                    Ok(_) => Step::Updated,
                    Err(text) => Step::Failed(Error::StorageFailed { detail: text }),
                };
            },
            Stage::MergeSave => {
                return match report {
                    Ok(_) => Step::Merged,
                    Err(text) => Step::Failed(Error::StorageFailed { detail: text }),
                };
            },
            _ => {},
        }
        let mut agent = match subject {
            Some(agent) => agent,
            None => {
                return Step::Failed(Error::OutOfTurn);
            },
        };
        match stage {
            Stage::CreateBranch => match report {
                Ok(text) => {
                    agent.base_branch = text;
                    self.stage = Stage::CreateCommit;
                    self.subject = Some(agent);
                    Step::Run(git::current_commit())
                },
                Err(text) => Step::Failed(Error::VcsCommandFailed { stderr: text }),
            },
            Stage::CreateCommit => match report {
                Ok(text) => {
                    agent.base_commit = text;
                    let args = git::add_worktree(agent.branch.as_str(), agent.worktree.as_str());
                    self.stage = Stage::CreateAdd;
                    self.subject = Some(agent);
                    Step::Run(args)
                },
                Err(text) => Step::Failed(Error::VcsCommandFailed { stderr: text }),
            },
            Stage::CreateAdd => match report {
                Ok(_) => {
                    agent.created_at = at;
                    self.state.insert(agent.clone());
                    self.stage = Stage::CreateSave;
                    self.subject = Some(agent);
                    Step::Save
                },
                Err(text) => Step::Failed(Error::VcsCommandFailed { stderr: text }),
            },
            Stage::CreateSave => match report {
                Ok(_) => Step::Created(agent),
                Err(text) => Step::Failed(Error::StorageFailed { detail: text }),
            },
            Stage::RemoveTree => match report {
                Ok(_) => {
                    let args = git::delete_branch(agent.branch.as_str(), false);
                    self.stage = Stage::RemoveBranch;
                    self.subject = Some(agent);
                    Step::Run(args)
                },
                Err(_) => {
                    let args = git::remove_worktree(agent.worktree.as_str(), true);
                    self.stage = Stage::RemoveTreeForced;
                    self.subject = Some(agent);
                    Step::Run(args)
                },
            },
            Stage::RemoveTreeForced => {
                let args = git::delete_branch(agent.branch.as_str(), false);
                self.stage = Stage::RemoveBranch;
                self.subject = Some(agent);
                Step::Run(args)
            },
            Stage::RemoveBranch => match report {
                Ok(_) => {
                    self.state.remove(agent.id.as_str());
                    self.stage = Stage::RemoveSave;
                    Step::Save
                },
                Err(_) => {
                    let args = git::delete_branch(agent.branch.as_str(), true);
                    self.stage = Stage::RemoveBranchForced;
                    self.subject = Some(agent);
                    Step::Run(args)
                },
            },
            Stage::RemoveBranchForced => {
                self.state.remove(agent.id.as_str());
                self.stage = Stage::RemoveSave;
                Step::Save
            },
            Stage::MergeMark => match report {
                Ok(_) => {
                    let args = git::checkout(agent.base_branch.as_str());
                    self.stage = Stage::MergeCheckout;
                    self.subject = Some(agent);
                    Step::Run(args)
                },
                Err(text) => Step::Failed(Error::StorageFailed { detail: text }),
            },
            Stage::MergeCheckout => match report {
                Ok(_) => {
                    let message = merge_message(agent.id.as_str(), agent.task.as_str());
                    let args = git::merge(message.as_str(), agent.branch.as_str());
                    self.stage = Stage::MergeRun;
                    self.subject = Some(agent);
                    Step::Run(args)
                },
                Err(text) => Step::Failed(Error::VcsCommandFailed { stderr: text }),
            },
            Stage::MergeRun => match report {
                Ok(_) => {
                    self.state.set_merged(agent.id.as_str(), at);
                    self.stage = Stage::MergeSave;
                    Step::Save
                },
                Err(text) => Step::Failed(Error::VcsCommandFailed { stderr: text }),
            },
            _ => Step::Failed(Error::OutOfTurn),
        }
    }
}

} // verus!
