use vstd::prelude::*;

use crate::behaviour::{act, holds, perform, test_predicate, Action, Predicate};
use crate::input::GameInput;
use crate::world::WorldView;

verus! {

/// The outcome of evaluating a node for one tick.
#[derive(Debug, Clone, Copy, PartialEq, Eq, Structural)]
pub enum Status {
    /// Not finished: evaluate the same node again next tick.
    Running,
    Succeeded,
    Failed,
}

/// Success and failure swapped; `Running` kept.
pub open spec fn invert(r: Status) -> Status {
    match r {
        Status::Running => Status::Running,
        Status::Succeeded => Status::Failed,
        Status::Failed => Status::Succeeded,
    }
}

/// The child result that ends a sequence early: success for a selector,
/// failure for an all-of sequence.
pub open spec fn early(stop_on_success: bool) -> Status {
    if stop_on_success { Status::Succeeded } else { Status::Failed }
}

/// One node of a tree. Children are named by their position in the tree,
/// which is always after their parent's.
#[derive(Debug)]
pub enum Node {
    /// Runs its children in order. With `stop_on_success` it is a selector
    /// (succeeds at the first success, fails when all fail); without, an
    /// all-of sequence (fails at the first failure, succeeds when all succeed).
    Sequence { children: Vec<usize>, stop_on_success: bool },
    /// Runs its child while `predicate` holds; with `reevaluate` the predicate
    /// is tested on every tick, without it only when the guard is not running.
    Guard { predicate: Predicate, reevaluate: bool, child: usize },
    /// Swaps the success and failure of its child.
    Inverter { child: usize },
    /// Makes one decision.
    Leaf { action: Action },
}

/// The progress of one node: for a sequence, the child it is running; for a
/// guard, whether its child is running.
#[derive(Debug, Clone, Copy, PartialEq, Eq, Structural)]
pub struct NodeState {
    pub index: Option<usize>,
    pub running: bool,
}

/// No execution in flight.
pub open spec fn idle() -> NodeState {
    NodeState { index: None, running: false }
}

/// Number of children of node `i` when it is a sequence.
pub open spec fn width(nodes: Seq<Node>, i: int) -> int {
    if 0 <= i < nodes.len() {
        match nodes[i] {
            Node::Sequence { children, .. } => children@.len() as int,
            _ => 0,
        }
    } else {
        0
    }
}

/// Node `i` only names children placed after it, and a sequence has children.
pub open spec fn node_wf(nodes: Seq<Node>, i: int) -> bool {
    match nodes[i] {
        Node::Sequence { children, .. } => children@.len() > 0 && forall|k: int|
            0 <= k < children@.len() ==> i < #[trigger] children@[k] < nodes.len(),
        Node::Guard { child, .. } => i < child < nodes.len(),
        Node::Inverter { child } => i < child < nodes.len(),
        Node::Leaf { .. } => true,
    }
}

/// A tree with a root whose every node is well formed.
pub open spec fn shape_wf(nodes: Seq<Node>) -> bool {
    &&& nodes.len() > 0
    &&& forall|i: int| 0 <= i < nodes.len() ==> #[trigger] node_wf(nodes, i)
}

/// A sequence's progress names one of its children.
pub open spec fn state_ok(nodes: Seq<Node>, st: Seq<NodeState>, i: int) -> bool {
    st[i].index matches Some(k) ==> k < width(nodes, i)
}

pub open spec fn state_wf(nodes: Seq<Node>, st: Seq<NodeState>) -> bool {
    &&& st.len() == nodes.len()
    &&& forall|i: int| 0 <= i < nodes.len() ==> #[trigger] state_ok(nodes, st, i)
}

/// Replacing the progress of one node by a valid one keeps the whole valid.
proof fn lemma_update_state(nodes: Seq<Node>, st: Seq<NodeState>, i: int, s: NodeState)
    requires
        state_wf(nodes, st),
        0 <= i < nodes.len(),
        s.index matches Some(k) ==> k < width(nodes, i),
    ensures
        state_wf(nodes, st.update(i, s)),
{
    assert forall|j: int| 0 <= j < nodes.len() implies #[trigger] state_ok(nodes, st.update(i, s), j) by {
        assert(state_ok(nodes, st, j));
    }
}

/// Evaluates node `i` for one tick from progress `st` and command `c`: the
/// progress and command afterwards and the node's result.
pub open spec fn eval(
    nodes: Seq<Node>,
    st: Seq<NodeState>,
    i: int,
    w: WorldView,
    me: int,
    c: GameInput,
) -> (Seq<NodeState>, Status, GameInput)
    decreases nodes.len() - i, 1int, 0int,
{
    if i < 0 || i >= nodes.len() {
        (st, Status::Failed, c)
    } else {
        match nodes[i] {
            Node::Sequence { .. } => {
                let k = match st[i].index {
                    Some(k) => k as int,
                    None => 0,
                };
                run_from(nodes, st, i, k, w, me, c)
            },
            Node::Guard { predicate, reevaluate, child } => {
                if (reevaluate || !st[i].running) && !holds(predicate, w, me) {
                    (st.update(i, idle()), Status::Failed, c)
                } else if i < child < nodes.len() {
                    let (st1, r, c1) = eval(nodes, st, child as int, w, me, c);
                    if r == Status::Running {
                        (st1.update(i, NodeState { index: None, running: true }), r, c1)
                    } else {
                        (st1.update(i, idle()), r, c1)
                    }
                } else {
                    (st, Status::Failed, c)
                }
            },
            Node::Inverter { child } => {
                if i < child < nodes.len() {
                    let (st1, r, c1) = eval(nodes, st, child as int, w, me, c);
                    (st1, invert(r), c1)
                } else {
                    (st, Status::Failed, c)
                }
            },
            Node::Leaf { action } => {
                let (r, c1) = act(action, w, me, c);
                (st, r, c1)
            },
        }
    }
}

/// Runs sequence `i` from its child at position `k` within one tick: a
/// terminal child result moves on to the next child at once, unless it ends
/// the sequence.
pub open spec fn run_from(
    nodes: Seq<Node>,
    st: Seq<NodeState>,
    i: int,
    k: int,
    w: WorldView,
    me: int,
    c: GameInput,
) -> (Seq<NodeState>, Status, GameInput)
    decreases nodes.len() - i, 0int, width(nodes, i) - k,
{
    if 0 <= i < nodes.len() && 0 <= k < width(nodes, i) {
        match nodes[i] {
            Node::Sequence { children, stop_on_success } => {
                let child = children@[k] as int;
                if i < child < nodes.len() {
                    let (st1, r, c1) = eval(nodes, st, child, w, me, c);
                    if r == Status::Running {
                        (st1.update(i, NodeState { index: Some(k as usize), running: false }), r, c1)
                    } else if r == early(stop_on_success) || k + 1 == width(nodes, i) {
                        (st1.update(i, idle()), r, c1)
                    } else {
                        run_from(nodes, st1, i, k + 1, w, me, c1)
                    }
                } else {
                    (st, Status::Failed, c)
                }
            },
            _ => (st, Status::Failed, c),
        }
    } else {
        (st, Status::Failed, c)
    }
}

/// A behaviour tree and the progress of each of its nodes. Node 0 is the root.
pub struct Tree {
    nodes: Vec<Node>,
    state: Vec<NodeState>,
}

impl Tree {
    /// The nodes of the tree.
    pub closed spec fn shape(&self) -> Seq<Node> {
        self.nodes@
    }

    /// The progress of each node.
    pub closed spec fn progress(&self) -> Seq<NodeState> {
        self.state@
    }

    pub open spec fn wf(&self) -> bool {
        shape_wf(self.shape()) && state_wf(self.shape(), self.progress())
    }

    /// Evaluates node `i` for one tick.
    fn eval_node(&mut self, i: usize, w: &WorldView, me: usize, c: &mut GameInput) -> (r: Status)
        requires
            old(self).wf(),
            i < old(self).shape().len(),
            w.wf(),
            me < w.characters@.len(),
        ensures
            final(self).wf(),
            final(self).shape() == old(self).shape(),
            (final(self).progress(), r, *final(c)) == eval(
                old(self).shape(),
                old(self).progress(),
                i as int,
                *w,
                me as int,
                *old(c),
            ),
        decreases old(self).shape().len() - i, 1int, 0int,
    {
        proof {
            assert(node_wf(self.nodes@, i as int));
            assert(state_ok(self.nodes@, self.state@, i as int));
        }
        match &self.nodes[i] {
            Node::Sequence { .. } => {
                let k: usize = match self.state[i].index {
                    Some(k) => k,
                    None => 0,
                };
                self.run_from(i, k, w, me, c)
            },
            Node::Guard { predicate, reevaluate, child } => {
                let predicate = *predicate;
                let reevaluate = *reevaluate;
                let child = *child;
                if (reevaluate || !self.state[i].running) && !test_predicate(predicate, w, me) {
                    proof {
                        lemma_update_state(self.nodes@, self.state@, i as int, idle());
                    }
                    self.state.set(i, NodeState { index: None, running: false });
                    Status::Failed
                } else {
                    let r = self.eval_node(child, w, me, c);
                    proof {
                        lemma_update_state(self.nodes@, self.state@, i as int, idle());
                        lemma_update_state(
                            self.nodes@,
                            self.state@,
                            i as int,
                            NodeState { index: None, running: true },
                        );
                    }
                    if r == Status::Running {
                        self.state.set(i, NodeState { index: None, running: true });
                    } else {
                        self.state.set(i, NodeState { index: None, running: false });
                    }
                    r
                }
            },
            Node::Inverter { child } => {
                let child = *child;
                match self.eval_node(child, w, me, c) {
                    Status::Running => Status::Running,
                    Status::Succeeded => Status::Failed,
                    Status::Failed => Status::Succeeded,
                }
            },
            Node::Leaf { action } => perform(*action, w, me, c),
        }
    }

    /// Runs sequence `i` from its child at position `k`.
    fn run_from(&mut self, i: usize, k: usize, w: &WorldView, me: usize, c: &mut GameInput) -> (r: Status)
        requires
            old(self).wf(),
            i < old(self).shape().len(),
            old(self).shape()[i as int] is Sequence,
            k < width(old(self).shape(), i as int),
            w.wf(),
            me < w.characters@.len(),
        ensures
            final(self).wf(),
            final(self).shape() == old(self).shape(),
            (final(self).progress(), r, *final(c)) == run_from(
                old(self).shape(),
                old(self).progress(),
                i as int,
                k as int,
                *w,
                me as int,
                *old(c),
            ),
        decreases old(self).shape().len() - i, 0int, width(old(self).shape(), i as int) - k,
    {
        proof {
            assert(node_wf(self.nodes@, i as int));
        }
        let (child, n, stop) = match &self.nodes[i] {
            Node::Sequence { children, stop_on_success } => (children[k], children.len(), *stop_on_success),
            _ => (0, 0, false),
        };
        let r = self.eval_node(child, w, me, c);
        let ends = if stop { r == Status::Succeeded } else { r == Status::Failed };
        proof {
            lemma_update_state(self.nodes@, self.state@, i as int, idle());
            lemma_update_state(
                self.nodes@,
                self.state@,
                i as int,
                NodeState { index: Some(k), running: false },
            );
        }
        if r == Status::Running {
            self.state.set(i, NodeState { index: Some(k), running: false });
            r
        } else if ends || k + 1 == n {
            self.state.set(i, NodeState { index: None, running: false });
            r
        } else {
            self.run_from(i, k + 1, w, me, c)
        }
    }

    /// A tree with every node idle.
    fn from_shape(nodes: Vec<Node>) -> (r: Tree)
        requires
            shape_wf(nodes@),
        ensures
            r.wf(),
            r.shape() == nodes@,
            r.progress() == Seq::new(nodes@.len(), |j: int| idle()),
    {
        let mut state: Vec<NodeState> = Vec::new();
        let mut j: usize = 0;
        while j < nodes.len()
            invariant
                j <= nodes@.len(),
                state@ == Seq::new(j as nat, |q: int| idle()),
            decreases nodes@.len() - j,
        {
            state.push(NodeState { index: None, running: false });
            j += 1;
            proof {
                assert(state@ =~= Seq::new(j as nat, |q: int| idle()));
            }
        }
        let r = Tree { nodes, state };
        assert forall|i: int| 0 <= i < r.nodes@.len() implies #[trigger] state_ok(
            r.nodes@,
            r.state@,
            i,
        ) by {}
        r
    }

    /// Builds a tree from its nodes, node 0 being the root, with every node
    /// idle; `None` when a node names a child that does not come after it or
    /// a sequence has no children.
    pub fn new(nodes: Vec<Node>) -> (r: Option<Tree>)
        ensures
            r is Some <==> shape_wf(nodes@),
            r matches Some(t) ==> t.wf() && t.shape() == nodes@ && t.progress() == Seq::new(
                nodes@.len(),
                |j: int| idle(),
            ),
    {
        if nodes.len() == 0 {
            return None;
        }
        let mut i: usize = 0;
        while i < nodes.len()
            invariant
                i <= nodes@.len(),
                forall|q: int| 0 <= q < i ==> #[trigger] node_wf(nodes@, q),
            decreases nodes@.len() - i,
        {
            if !node_is_wf(&nodes, i) {
                return None;
            }
            i += 1;
        }
        Some(Tree::from_shape(nodes))
    }

    /// Evaluates the tree from its root for one tick, for the agent's
    /// character `me`, writing its intents into `c`.
    pub fn evaluate(&mut self, w: &WorldView, me: usize, c: &mut GameInput) -> (r: Status)
        requires
            old(self).wf(),
            w.wf(),
            me < w.characters@.len(),
        ensures
            final(self).wf(),
            final(self).shape() == old(self).shape(),
            (final(self).progress(), r, *final(c)) == eval(
                old(self).shape(),
                old(self).progress(),
                0,
                *w,
                me as int,
                *old(c),
            ),
    {
        self.eval_node(0, w, me, c)
    }

    /// The number of nodes.
    pub fn len(&self) -> (r: usize)
        ensures
            r == self.shape().len(),
    {
        self.nodes.len()
    }

    /// The progress of node `i`, if there is such a node.
    pub fn node_state(&self, i: usize) -> (r: Option<NodeState>)
        ensures
            i < self.progress().len() ==> r == Some(self.progress()[i as int]),
            i >= self.progress().len() ==> r is None,
    {
        if i < self.state.len() {
            Some(self.state[i])
        } else {
            None
        }
    }

    /// The decision tree of a non-player character: fight when armed and an
    /// opponent is in reach, otherwise go and pick up the nearest weapon.
    pub fn decision() -> (r: Tree)
        ensures
            r.wf(),
            is_decision(r.shape()),
            r.progress() == Seq::new(9, |j: int| idle()),
    {
        let nodes = vec![
            Node::Sequence { children: vec![1, 5], stop_on_success: true },
            Node::Guard { predicate: Predicate::HasWeapon, reevaluate: true, child: 2 },
            Node::Sequence { children: vec![3, 4], stop_on_success: true },
            Node::Leaf { action: Action::Engage },
            Node::Leaf { action: Action::Wander },
            Node::Sequence { children: vec![6, 8], stop_on_success: true },
            Node::Inverter { child: 7 },
            Node::Leaf { action: Action::ApproachWeapon },
            Node::Leaf { action: Action::Pickup },
        ];
        proof {
            assert forall|i: int| 0 <= i < nodes@.len() implies #[trigger] node_wf(nodes@, i) by {
                if i == 0 || i == 2 || i == 5 {
                    match nodes@[i] {
                        Node::Sequence { children, .. } => {
                            assert(children@.len() == 2);
                        },
                        _ => {},
                    }
                }
            }
        }
        Tree::from_shape(nodes)
    }
}

/// Tests whether node `i` is well formed.
fn node_is_wf(nodes: &Vec<Node>, i: usize) -> (r: bool)
    requires
        i < nodes@.len(),
    ensures
        r == node_wf(nodes@, i as int),
{
    match &nodes[i] {
        Node::Sequence { children, .. } => {
            if children.len() == 0 {
                return false;
            }
            let mut k: usize = 0;
            while k < children.len()
                invariant
                    i < nodes@.len(),
                    nodes@[i as int] is Sequence,
                    nodes@[i as int]->Sequence_children@ == children@,
                    k <= children@.len(),
                    forall|q: int| 0 <= q < k ==> i < #[trigger] children@[q] < nodes@.len(),
                decreases children@.len() - k,
            {
                if !(i < children[k] && children[k] < nodes.len()) {
                    proof {
                        assert(!(i < children@[k as int] < nodes@.len()));
                    }
                    return false;
                }
                k += 1;
            }
            true
        },
        Node::Guard { child, .. } => i < *child && *child < nodes.len(),
        Node::Inverter { child } => i < *child && *child < nodes.len(),
        Node::Leaf { .. } => true,
    }
}

/// The shape of the decision tree: a selector between an armed branch and a
/// weapon-seeking branch. The armed branch is a guard, tested every tick,
/// over a selector of engaging and wandering; the other is a selector of
/// "not yet at the nearest weapon" and picking up.
pub open spec fn is_decision(nodes: Seq<Node>) -> bool {
    &&& nodes.len() == 9
    &&& nodes[0] matches Node::Sequence { children, stop_on_success }
        && children@ == seq![1usize, 5] && stop_on_success
    &&& nodes[1] == Node::Guard { predicate: Predicate::HasWeapon, reevaluate: true, child: 2 }
    &&& nodes[2] matches Node::Sequence { children, stop_on_success }
        && children@ == seq![3usize, 4] && stop_on_success
    &&& nodes[3] == Node::Leaf { action: Action::Engage }
    &&& nodes[4] == Node::Leaf { action: Action::Wander }
    &&& nodes[5] matches Node::Sequence { children, stop_on_success }
        && children@ == seq![6usize, 8] && stop_on_success
    &&& nodes[6] == Node::Inverter { child: 7 }
    &&& nodes[7] == Node::Leaf { action: Action::ApproachWeapon }
    &&& nodes[8] == Node::Leaf { action: Action::Pickup }
}

} // verus!
