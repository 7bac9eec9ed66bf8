//! Replicas: heartbeats, the election of the active set, and the state
//! machine that starts and stops the tasks of a replica.

use crate::chains::ChainId;
use crate::config::OptimizationConfig;
use vstd::prelude::*;

verus! {

/// How many replicas index at the same time unless the configuration says
/// otherwise.
pub const DEFAULT_MAX_CONCURRENT_NODE_COUNT: u16 = 50;

/// Calls `chrono::offset::Utc::now` and reads the result with
/// `DateTime::timestamp`: the wall clock, in seconds since the Unix epoch.
/// Nothing is claimed of the value, which differs from call to call.
/// `Utc::now` panics where the system clock stands before 1970.
#[verifier::external_body]
pub(crate) fn now_in_secs() -> (now: i64) {
    chrono::offset::Utc::now().timestamp()
}

/// A replica, as the store knows it: its id and its latest heartbeat, a wall
/// clock reading in seconds.
#[derive(Clone, Copy, Debug, PartialEq, Eq, Structural)]
pub struct Node {
    pub id: u64,
    pub last_active_at: i64,
}

impl Node {
    /// Whether the node counts as alive at `now`: its latest heartbeat is at
    /// most two election intervals old.
    pub open spec fn is_active(self, node_election_rate_ms: u64, now: i64) -> bool {
        self.last_active_at * 1000 >= now * 1000 - 2 * node_election_rate_ms
    }

    /// Whether the node counts as alive at `now` (in seconds): its latest
    /// heartbeat is at most two election intervals old.
    pub fn is_active_at(&self, node_election_rate_ms: u64, now: i64) -> (active: bool)
        ensures
            active == self.is_active(node_election_rate_ms, now),
    {
        (self.last_active_at as i128) * 1000 >= (now as i128) * 1000 - 2 * (
        node_election_rate_ms as i128)
    }
}

/// The nodes table's invariant: the row at position `i` has id `i + 1`.
pub open spec fn nodes_wf(nodes: Seq<Node>) -> bool {
    forall|i: int| 0 <= i < nodes.len() ==> (#[trigger] nodes[i]).id == i + 1
}

/// The nodes that count as alive at `now`.
pub open spec fn active_at(node_election_rate_ms: u64, now: i64) -> spec_fn(Node) -> bool {
    |node: Node| node.is_active(node_election_rate_ms, now)
}

/// The table after a heartbeat of the node `id` at `now`.
pub open spec fn with_heartbeat(nodes: Seq<Node>, id: u64, now: i64) -> Seq<Node> {
    nodes.map_values(
        |node: Node|
            if node.id == id {
                Node { last_active_at: now, ..node }
            } else {
                node
            },
    )
}

/// Whether `nodes` holds a node with this id.
pub open spec fn has_node(nodes: Seq<Node>, id: u64) -> bool {
    exists|i: int| 0 <= i < nodes.len() && (#[trigger] nodes[i]).id == id
}

/// Whether `elected` is the active set among `nodes` for the bound
/// `max_concurrent_node_count`: the nodes with the lowest ids, lowest first,
/// as many as the bound admits.
pub open spec fn is_active_set(
    elected: Seq<Node>,
    nodes: Seq<Node>,
    max_concurrent_node_count: u16,
) -> bool {
    &&& elected.len() <= max_concurrent_node_count
    &&& forall|i: int| 0 <= i < elected.len() ==> nodes.contains(#[trigger] elected[i])
    &&& forall|i: int, j: int|
        0 <= i < j < elected.len() ==> (#[trigger] elected[i]).id < (#[trigger] elected[j]).id
    &&& forall|k: int|
        0 <= k < nodes.len() ==> has_node(elected, (#[trigger] nodes[k]).id) || (elected.len()
            == max_concurrent_node_count && forall|i: int|
            0 <= i < elected.len() ==> (#[trigger] elected[i]).id < nodes[k].id)
}

/// Whether `id` lies above `floor`; every id lies above no floor.
pub open spec fn is_above(floor: Option<u64>, id: u64) -> bool {
    match floor {
        Some(lowest) => lowest < id,
        None => true,
    }
}

/// The node with the lowest id above `floor`, where there is one.
fn next_node_after(nodes: &Vec<Node>, floor: Option<u64>) -> (next: Option<Node>)
    ensures
        match next {
            Some(node) => nodes@.contains(node) && is_above(floor, node.id) && forall|k: int|
                0 <= k < nodes.len() && is_above(floor, (#[trigger] nodes[k]).id) ==> node.id
                    <= nodes[k].id,
            None => forall|k: int|
                0 <= k < nodes.len() ==> !is_above(floor, (#[trigger] nodes[k]).id),
        },
{
    let mut next: Option<Node> = None;
    let mut i: usize = 0;
    while i < nodes.len()
        invariant
            i <= nodes.len(),
            match next {
                Some(node) => nodes@.contains(node) && is_above(floor, node.id) && forall|k: int|
                    0 <= k < i && is_above(floor, (#[trigger] nodes[k]).id) ==> node.id
                        <= nodes[k].id,
                None => forall|k: int| 0 <= k < i ==> !is_above(floor, (#[trigger] nodes[k]).id),
            },
        decreases nodes.len() - i,
    {
        let node = nodes[i];
        let above_floor = match floor {
            Some(lowest) => lowest < node.id,
            None => true,
        };
        if above_floor {
            let better = match next {
                Some(best) => node.id < best.id,
                None => true,
            };
            if better {
                next = Some(node);
            }
        }
        i += 1;
    }
    next
}

/// The active set among the nodes that count as alive: those with the lowest
/// ids, lowest first, at most `max_concurrent_node_count` of them.
pub fn elect_active_set(nodes: &Vec<Node>, max_concurrent_node_count: u16) -> (elected: Vec<Node>)
    ensures
        is_active_set(elected@, nodes@, max_concurrent_node_count),
        elected.len() <= max_concurrent_node_count,
{
    let mut elected: Vec<Node> = Vec::new();
    let mut floor: Option<u64> = None;
    let mut drained = false;
    while elected.len() < max_concurrent_node_count as usize && !drained
        invariant
            elected.len() <= max_concurrent_node_count,
            forall|i: int| 0 <= i < elected.len() ==> nodes@.contains(#[trigger] elected[i]),
            forall|i: int, j: int|
                0 <= i < j < elected.len() ==> (#[trigger] elected[i]).id < (
                #[trigger] elected[j]).id,
            floor is None <==> elected.len() == 0,
            floor matches Some(id) ==> elected@.last().id == id,
            forall|k: int|
                0 <= k < nodes.len() ==> has_node(elected@, (#[trigger] nodes[k]).id) || is_above(
                    floor,
                    nodes[k].id,
                ),
            drained ==> forall|k: int|
                0 <= k < nodes.len() ==> has_node(elected@, (#[trigger] nodes[k]).id),
        decreases max_concurrent_node_count - elected.len() + if drained { 0int } else { 1int },
    {
        match next_node_after(nodes, floor) {
            Some(node) => {
                let ghost before = elected@;
                elected.push(node);
                floor = Some(node.id);
                assert forall|k: int| 0 <= k < nodes.len() implies has_node(
                    elected@,
                    (#[trigger] nodes[k]).id,
                ) || node.id < nodes[k].id by {
                    if has_node(before, nodes[k].id) {
                        let w = choose|i: int|
                            0 <= i < before.len() && (#[trigger] before[i]).id == nodes[k].id;
                        assert(elected@[w].id == nodes[k].id);
                    } else if nodes[k].id == node.id {
                        assert(elected@[before.len() as int].id == nodes[k].id);
                    }
                }
            },
            None => {
                drained = true;
            },
        }
    }
    elected
}

/// The leader among the nodes that count as alive: the one with the lowest
/// id. There is none where no node is alive.
pub fn elect_leader(nodes: &Vec<Node>) -> (leader: Option<Node>)
    ensures
        nodes.len() == 0 <==> leader is None,
        leader matches Some(node) ==> nodes@.contains(node) && forall|k: int|
            0 <= k < nodes.len() ==> node.id <= (#[trigger] nodes[k]).id,
{
    let leader = next_node_after(nodes, None);
    proof {
        if nodes.len() > 0 {
            assert(nodes[0].id >= 0);
        }
    }
    leader
}

/// Two active sets of the same nodes under the same bound agree in their
/// ids up to position `i`.
proof fn lemma_active_sets_agree_up_to(
    first: Seq<Node>,
    second: Seq<Node>,
    nodes: Seq<Node>,
    max_concurrent_node_count: u16,
    i: int,
)
    requires
        is_active_set(first, nodes, max_concurrent_node_count),
        is_active_set(second, nodes, max_concurrent_node_count),
        0 <= i < first.len(),
        i < second.len(),
    ensures
        forall|j: int| 0 <= j <= i ==> first[j].id == second[j].id,
    decreases i,
{
    if i > 0 {
        lemma_active_sets_agree_up_to(first, second, nodes, max_concurrent_node_count, i - 1);
    }
}

/// Of two active sets of the same nodes under the same bound, the second is
/// not longer than the first.
proof fn lemma_active_set_is_no_shorter(
    first: Seq<Node>,
    second: Seq<Node>,
    nodes: Seq<Node>,
    max_concurrent_node_count: u16,
)
    requires
        is_active_set(first, nodes, max_concurrent_node_count),
        is_active_set(second, nodes, max_concurrent_node_count),
    ensures
        second.len() <= first.len(),
{
    if first.len() < second.len() {
        let i = first.len() as int;
        let k = choose|k: int| 0 <= k < nodes.len() && nodes[k] == second[i];
        let w = choose|w: int| 0 <= w < first.len() && (#[trigger] first[w]).id == nodes[k].id;
        lemma_active_sets_agree_up_to(first, second, nodes, max_concurrent_node_count, w);
    }
}

/// The active set is determined: two active sets of the same nodes under
/// the same bound have the same length and hold the same ids in the same
/// places.
pub proof fn lemma_active_set_is_unique(
    first: Seq<Node>,
    second: Seq<Node>,
    nodes: Seq<Node>,
    max_concurrent_node_count: u16,
)
    requires
        is_active_set(first, nodes, max_concurrent_node_count),
        is_active_set(second, nodes, max_concurrent_node_count),
    ensures
        first.len() == second.len(),
        forall|i: int| 0 <= i < first.len() ==> (#[trigger] first[i]).id == second[i].id,
{
    lemma_active_set_is_no_shorter(first, second, nodes, max_concurrent_node_count);
    lemma_active_set_is_no_shorter(second, first, nodes, max_concurrent_node_count);
    if first.len() > 0 {
        lemma_active_sets_agree_up_to(
            first,
            second,
            nodes,
            max_concurrent_node_count,
            first.len() - 1,
        );
    }
}

/// A standing request to keep this node at work: fresh for a grace period
/// after it was last renewed, stale from then on.
#[derive(Clone, Copy, Debug, PartialEq, Eq, Structural)]
pub struct KeepNodeActiveRequest {
    /// When the request was last renewed, in seconds.
    pub last_refreshed_at: i64,
    /// How long a renewal holds, in milliseconds.
    pub active_grace_period_ms: u32,
}

impl KeepNodeActiveRequest {
    /// A request renewed at `now` that holds for `active_grace_period_ms`.
    pub fn new(active_grace_period_ms: u32, now: i64) -> (request: Self)
        ensures
            request.last_refreshed_at == now,
            request.active_grace_period_ms == active_grace_period_ms,
    {
        KeepNodeActiveRequest { last_refreshed_at: now, active_grace_period_ms }
    }

    /// Renews the request at `now`.
    pub fn refresh(&mut self, now: i64)
        ensures
            final(self).last_refreshed_at == now,
            final(self).active_grace_period_ms == old(self).active_grace_period_ms,
    {
        self.last_refreshed_at = now;
    }

    /// Whether the grace period has run out at `now`.
    pub open spec fn stale_at(self, now: i64) -> bool {
        (now - self.last_refreshed_at) * 1000 >= self.active_grace_period_ms
    }

    /// Whether the request is stale at `now` (in seconds): the grace period
    /// since its last renewal has run out.
    pub fn is_stale(&self, now: i64) -> (stale: bool)
        ensures
            stale == self.stale_at(now),
    {
        ((now as i128) - (self.last_refreshed_at as i128)) * 1000
            >= self.active_grace_period_ms as i128
    }
}

/// Whether an elected node is at work, as far as optimization goes.
#[derive(Clone, Copy, Debug, PartialEq, Eq, Structural)]
pub enum NodeTasksState {
    /// Stopped because nobody asks for fresh data.
    Idle,
    /// At work.
    Active,
    /// At work, and about to go idle at the given time (in seconds) unless
    /// somebody asks for fresh data before.
    SleepingUntil(i64),
}

/// What the caller has to do with the node's task groups after a tick.
#[derive(Clone, Copy, Debug, PartialEq, Eq, Structural)]
pub enum NodeTasksAction {
    /// Start an ingester and a handler task for each chain, and the
    /// auxiliary tasks.
    Start,
    /// Cancel all tasks, drain them and release what they hold.
    Stop,
    /// Leave the tasks as they are.
    Keep,
}

/// The task groups of one replica and what decides whether they run.
#[derive(Debug)]
pub struct NodeTasks {
    pub current_node: Node,
    /// When the replica booted, in seconds.
    pub started_at: i64,
    pub state: NodeTasksState,
    /// The chains with a running task group; empty while no task runs.
    pub task_groups: Vec<ChainId>,
}

/// The time at which a node that nobody asks for goes idle: one election
/// interval after `now`, in full seconds.
pub open spec fn sleep_deadline(now: i64, node_election_rate_ms: u64) -> i64 {
    if now + (node_election_rate_ms + 999) / 1000 > i64::MAX {
        i64::MAX
    } else {
        (now + (node_election_rate_ms + 999) / 1000) as i64
    }
}

/// Whether optimization has begun at `now` and the request to keep the node
/// active is stale.
pub open spec fn is_unwanted(config: OptimizationConfig, started_at: i64, now: i64) -> bool {
    now - started_at >= config.optimize_after_in_secs && config.keep_node_active_request.stale_at(
        now,
    )
}

/// The state of an elected node after a tick at `now`.
///
/// Without optimization the node is active. With it, the node is active
/// while optimization has not begun or somebody asks for fresh data.
/// Otherwise an active node gets one election interval of respite, a node in
/// respite goes idle once that time is over, and an idle node stays idle.
pub open spec fn optimized(
    state: NodeTasksState,
    optimization_config: Option<OptimizationConfig>,
    started_at: i64,
    node_election_rate_ms: u64,
    now: i64,
) -> NodeTasksState {
    match optimization_config {
        Some(config) => if is_unwanted(config, started_at, now) {
            match state {
                NodeTasksState::Active => NodeTasksState::SleepingUntil(
                    sleep_deadline(now, node_election_rate_ms),
                ),
                NodeTasksState::SleepingUntil(deadline) => if now >= deadline {
                    NodeTasksState::Idle
                } else {
                    state
                },
                NodeTasksState::Idle => NodeTasksState::Idle,
            }
        } else {
            NodeTasksState::Active
        },
        None => NodeTasksState::Active,
    }
}

/// The state after a tick: that of a node outside the active set does not
/// change.
pub open spec fn state_after_tick(
    state: NodeTasksState,
    am_i_active: bool,
    optimization_config: Option<OptimizationConfig>,
    started_at: i64,
    node_election_rate_ms: u64,
    now: i64,
) -> NodeTasksState {
    if am_i_active {
        optimized(state, optimization_config, started_at, node_election_rate_ms, now)
    } else {
        state
    }
}

/// What a tick asks for: tasks are started where the node should run and
/// none runs, stopped where it should not run and some run.
pub open spec fn action_after_tick(should_run: bool, is_running: bool) -> NodeTasksAction {
    if should_run && !is_running {
        NodeTasksAction::Start
    } else if !should_run && is_running {
        NodeTasksAction::Stop
    } else {
        NodeTasksAction::Keep
    }
}

impl NodeTasks {
    /// The tasks of `current_node`, which booted at `started_at`: none runs
    /// yet.
    pub fn new(current_node: &Node, started_at: i64) -> (node_tasks: Self)
        ensures
            node_tasks.current_node == *current_node,
            node_tasks.started_at == started_at,
            node_tasks.state == NodeTasksState::Active,
            node_tasks.task_groups@.len() == 0,
    {
        NodeTasks {
            current_node: *current_node,
            started_at,
            state: NodeTasksState::Active,
            task_groups: Vec::new(),
        }
    }

    /// Whether this node is one of `active_set`.
    pub fn is_in(&self, active_set: &Vec<Node>) -> (am_i_active: bool)
        ensures
            am_i_active == has_node(active_set@, self.current_node.id),
    {
        let mut i: usize = 0;
        while i < active_set.len()
            invariant
                i <= active_set.len(),
                forall|k: int|
                    0 <= k < i ==> (#[trigger] active_set@[k]).id != self.current_node.id,
            decreases active_set.len() - i,
        {
            if active_set[i].id == self.current_node.id {
                return true;
            }
            i += 1;
        }
        false
    }

    /// One tick of the orchestrator at `now` (in seconds), given the active
    /// set and the chains to index.
    ///
    /// The node should run if it is in the active set and, with
    /// optimization, not idle. Where it should run and no task runs, the
    /// answer is `Start` and a task group is on record for each chain. Where
    /// it should not run and tasks run, the answer is `Stop` and no task
    /// group stays on record. Otherwise nothing changes but the state.
    pub fn orchestrate(
        &mut self,
        optimization_config: &Option<OptimizationConfig>,
        active_set: &Vec<Node>,
        chains: &Vec<ChainId>,
        node_election_rate_ms: u64,
        now: i64,
    ) -> (action: NodeTasksAction)
        ensures
            final(self).current_node == old(self).current_node,
            final(self).started_at == old(self).started_at,
            final(self).state == state_after_tick(
                old(self).state,
                has_node(active_set@, old(self).current_node.id),
                *optimization_config,
                old(self).started_at,
                node_election_rate_ms,
                now,
            ),
            action == action_after_tick(
                has_node(active_set@, old(self).current_node.id) && final(self).state
                    != NodeTasksState::Idle,
                old(self).task_groups@.len() > 0,
            ),
            final(self).task_groups@ == match action {
                NodeTasksAction::Start => chains@,
                NodeTasksAction::Stop => Seq::empty(),
                NodeTasksAction::Keep => old(self).task_groups@,
            },
    {
        let am_i_active = self.is_in(active_set);
        if am_i_active {
            self.state = match optimization_config {
                Some(config) => {
                    let begun = (now as i128) - (self.started_at as i128)
                        >= config.optimize_after_in_secs as i128;
                    if begun && config.keep_node_active_request.is_stale(now) {
                        match self.state {
                            NodeTasksState::Active => {
                                let deadline = (now as i128) + ((node_election_rate_ms as i128)
                                    + 999) / 1000;
                                if deadline > i64::MAX as i128 {
                                    NodeTasksState::SleepingUntil(i64::MAX)
                                } else {
                                    NodeTasksState::SleepingUntil(deadline as i64)
                                }
                            },
                            NodeTasksState::SleepingUntil(deadline) => {
                                if now >= deadline {
                                    NodeTasksState::Idle
                                } else {
                                    NodeTasksState::SleepingUntil(deadline)
                                }
                            },
                            NodeTasksState::Idle => NodeTasksState::Idle,
                        }
                    } else {
                        NodeTasksState::Active
                    }
                },
                None => NodeTasksState::Active,
            };
        }
        let is_idle = match self.state {
            NodeTasksState::Idle => true,
            _ => false,
        };
        let should_run = am_i_active && !is_idle;
        let is_running = self.task_groups.len() > 0;
        if should_run && !is_running {
            let mut task_groups: Vec<ChainId> = Vec::new();
            let mut i: usize = 0;
            while i < chains.len()
                invariant
                    i <= chains.len(),
                    task_groups@ == chains@.take(i as int),
                decreases chains.len() - i,
            {
                task_groups.push(chains[i]);
                i += 1;
            }
            self.task_groups = task_groups;
            NodeTasksAction::Start
        } else if !should_run && is_running {
            self.task_groups = Vec::new();
            NodeTasksAction::Stop
        } else {
            NodeTasksAction::Keep
        }
    }
}

} // verus!
