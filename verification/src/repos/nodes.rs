//! The operations of the store on the nodes table.

use crate::nodes::{active_at, now_in_secs, with_heartbeat, Node};
use crate::repos::{Store, StoreView};
use vstd::prelude::*;

verus! {

impl Store {
    /// Enters a new node whose first heartbeat is `now`, and returns it. Its
    /// id is greater than that of every node entered before.
    pub fn create_node_at(&mut self, now: i64) -> (node: Node)
        requires
            old(self).wf(),
            old(self).nodes.len() < usize::MAX,
        ensures
            final(self).wf(),
            node == (Node { id: (old(self)@.nodes.len() + 1) as u64, last_active_at: now }),
            final(self)@ == (StoreView { nodes: old(self)@.nodes.push(node), ..old(self)@ }),
    {
        let node = Node { id: (self.nodes.len() + 1) as u64, last_active_at: now };
        self.nodes.push(node);
        node
    }

    /// Enters a new node whose first heartbeat is the wall clock's reading,
    /// and returns it.
    pub fn create_node(&mut self) -> (node: Node)
        requires
            old(self).wf(),
            old(self).nodes.len() < usize::MAX,
        ensures
            final(self).wf(),
            node.id == old(self)@.nodes.len() + 1,
            final(self)@ == (StoreView { nodes: old(self)@.nodes.push(node), ..old(self)@ }),
    {
        let now = now_in_secs();
        self.create_node_at(now)
    }

    /// Records a heartbeat of `node` at `now`. No row changes where the
    /// table holds no node of that id.
    pub fn keep_node_active_at(&mut self, node: &Node, now: i64)
        requires
            old(self).wf(),
        ensures
            final(self).wf(),
            final(self)@ == (StoreView {
                nodes: with_heartbeat(old(self)@.nodes, node.id, now),
                ..old(self)@
            }),
    {
        let id = node.id;
        if 1 <= id && id - 1 < self.nodes.len() as u64 {
            self.nodes[(id - 1) as usize].last_active_at = now;
        }
        assert(self@.nodes =~= with_heartbeat(old(self)@.nodes, id, now));
    }

    /// Records a heartbeat of `node` at the wall clock's reading.
    pub fn keep_node_active(&mut self, node: &Node)
        requires
            old(self).wf(),
        ensures
            final(self).wf(),
            exists|now: i64|
                final(self)@ == (StoreView {
                    nodes: #[trigger] with_heartbeat(old(self)@.nodes, node.id, now),
                    ..old(self)@
                }),
    {
        let now = now_in_secs();
        self.keep_node_active_at(node, now);
    }

    /// The nodes that count as alive at `now`, in id order: those whose
    /// latest heartbeat is at most two election intervals old.
    pub fn get_active_nodes_at(&self, node_election_rate_ms: u64, now: i64) -> (nodes: Vec<Node>)
        ensures
            nodes@ == self@.nodes.filter(active_at(node_election_rate_ms, now)),
    {
        let ghost wanted = active_at(node_election_rate_ms, now);
        let mut nodes: Vec<Node> = Vec::new();
        let mut i: usize = 0;
        while i < self.nodes.len()
            invariant
                i <= self.nodes.len(),
                wanted == active_at(node_election_rate_ms, now),
                nodes@ == self@.nodes.take(i as int).filter(wanted),
            decreases self.nodes.len() - i,
        {
            let node = self.nodes[i];
            proof {
                reveal(Seq::filter);
                assert(self@.nodes.take(i + 1).drop_last() =~= self@.nodes.take(i as int));
            }
            if node.is_active_at(node_election_rate_ms, now) {
                nodes.push(node);
            }
            i += 1;
        }
        assert(self@.nodes.take(i as int) =~= self@.nodes);
        nodes
    }

    /// The nodes that count as alive by the wall clock, in id order.
    pub fn get_active_nodes(&self, node_election_rate_ms: u64) -> (nodes: Vec<Node>)
        ensures
            exists|now: i64|
                nodes@ == self@.nodes.filter(#[trigger] active_at(node_election_rate_ms, now)),
    {
        let now = now_in_secs();
        self.get_active_nodes_at(node_election_rate_ms, now)
    }
}

} // verus!
