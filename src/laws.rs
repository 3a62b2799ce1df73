use vstd::prelude::*;

use crate::behaviour::holds;
use crate::input::GameInput;
use crate::tree::{early, eval, idle, invert, node_wf, run_from, shape_wf, width, Node, NodeState, Status};
use crate::world::WorldView;

verus! {

/// The child of sequence `i` at position `k`.
pub open spec fn child_at(nodes: Seq<Node>, i: int, k: int) -> int {
    nodes[i]->Sequence_children@[k] as int
}

/// An all-of sequence, at its child `k`: when that child fails, the sequence
/// fails at once, with no later child evaluated (progress and command are
/// exactly those the child left, the sequence idle again); when it succeeds,
/// the sequence goes on to the next child within the same tick, and succeeds
/// after its last child succeeded.
pub proof fn all_of_sequence_step(
    nodes: Seq<Node>,
    st: Seq<NodeState>,
    i: int,
    k: int,
    w: WorldView,
    me: int,
    c: GameInput,
)
    requires
        shape_wf(nodes),
        0 <= i < nodes.len(),
        nodes[i] matches Node::Sequence { stop_on_success, .. } && !stop_on_success,
        0 <= k < width(nodes, i),
    ensures
        ({
            let (st1, r, c1) = eval(nodes, st, child_at(nodes, i, k), w, me, c);
            &&& r == Status::Failed ==> run_from(nodes, st, i, k, w, me, c) == (
                st1.update(i, idle()),
                Status::Failed,
                c1,
            )
            &&& r == Status::Succeeded && k + 1 < width(nodes, i) ==> run_from(
                nodes,
                st,
                i,
                k,
                w,
                me,
                c,
            ) == run_from(nodes, st1, i, k + 1, w, me, c1)
            &&& r == Status::Succeeded && k + 1 == width(nodes, i) ==> run_from(
                nodes,
                st,
                i,
                k,
                w,
                me,
                c,
            ) == (st1.update(i, idle()), Status::Succeeded, c1)
        }),
{
    assert(node_wf(nodes, i));
}

/// A selector, at its child `k`: when that child succeeds, the selector
/// succeeds at once, with no later child evaluated; when it fails, the
/// selector goes on to the next child within the same tick, and fails after
/// its last child failed.
pub proof fn selector_step(
    nodes: Seq<Node>,
    st: Seq<NodeState>,
    i: int,
    k: int,
    w: WorldView,
    me: int,
    c: GameInput,
)
    requires
        shape_wf(nodes),
        0 <= i < nodes.len(),
        nodes[i] matches Node::Sequence { stop_on_success, .. } && stop_on_success,
        0 <= k < width(nodes, i),
    ensures
        ({
            let (st1, r, c1) = eval(nodes, st, child_at(nodes, i, k), w, me, c);
            &&& r == Status::Succeeded ==> run_from(nodes, st, i, k, w, me, c) == (
                st1.update(i, idle()),
                Status::Succeeded,
                c1,
            )
            &&& r == Status::Failed && k + 1 < width(nodes, i) ==> run_from(
                nodes,
                st,
                i,
                k,
                w,
                me,
                c,
            ) == run_from(nodes, st1, i, k + 1, w, me, c1)
            &&& r == Status::Failed && k + 1 == width(nodes, i) ==> run_from(
                nodes,
                st,
                i,
                k,
                w,
                me,
                c,
            ) == (st1.update(i, idle()), Status::Failed, c1)
        }),
{
    assert(node_wf(nodes, i));
}

/// Progress and command after children `k` up to `m` (excluded) of sequence
/// `i` were evaluated one after another within one tick.
pub open spec fn steps(
    nodes: Seq<Node>,
    st: Seq<NodeState>,
    i: int,
    k: int,
    m: int,
    w: WorldView,
    me: int,
    c: GameInput,
) -> (Seq<NodeState>, GameInput)
    decreases m - k,
{
    if k < 0 || k >= m {
        (st, c)
    } else {
        let (st1, r, c1) = eval(nodes, st, child_at(nodes, i, k), w, me, c);
        steps(nodes, st1, i, k + 1, m, w, me, c1)
    }
}

/// What child `m` of sequence `i` returns when children `k` up to it were
/// evaluated one after another within one tick.
pub open spec fn child_result(
    nodes: Seq<Node>,
    st: Seq<NodeState>,
    i: int,
    k: int,
    m: int,
    w: WorldView,
    me: int,
    c: GameInput,
) -> Status {
    let (st1, c1) = steps(nodes, st, i, k, m, w, me, c);
    eval(nodes, st1, child_at(nodes, i, m), w, me, c1).1
}

/// The terminal result that lets a sequence go on: success for an all-of
/// sequence, failure for a selector.
pub open spec fn go_on(stop_on_success: bool) -> Status {
    if stop_on_success { Status::Failed } else { Status::Succeeded }
}

/// A sequence run from child `k` returns the result that lets it go on
/// exactly when every child from `k` on, evaluated in order, returns it.
proof fn lemma_run_from_all(
    nodes: Seq<Node>,
    st: Seq<NodeState>,
    i: int,
    k: int,
    w: WorldView,
    me: int,
    c: GameInput,
)
    requires
        shape_wf(nodes),
        0 <= i < nodes.len(),
        nodes[i] is Sequence,
        0 <= k < width(nodes, i),
    ensures
        run_from(nodes, st, i, k, w, me, c).1 == go_on(nodes[i]->Sequence_stop_on_success) <==> (
        forall|m: int|
            k <= m < width(nodes, i) ==> #[trigger] child_result(nodes, st, i, k, m, w, me, c)
                == go_on(nodes[i]->Sequence_stop_on_success)),
    decreases width(nodes, i) - k,
{
    assert(node_wf(nodes, i));
    let stop = nodes[i]->Sequence_stop_on_success;
    let n = width(nodes, i);
    let (st1, r, c1) = eval(nodes, st, child_at(nodes, i, k), w, me, c);
    assert(child_result(nodes, st, i, k, k, w, me, c) == r);
    if r == go_on(stop) && k + 1 < n {
        lemma_run_from_all(nodes, st1, i, k + 1, w, me, c1);
        assert forall|m: int| k + 1 <= m < n implies #[trigger] child_result(
            nodes,
            st,
            i,
            k,
            m,
            w,
            me,
            c,
        ) == child_result(nodes, st1, i, k + 1, m, w, me, c1) by {
            assert(steps(nodes, st, i, k, m, w, me, c) == steps(nodes, st1, i, k + 1, m, w, me, c1));
        }
        if forall|m: int| k + 1 <= m < n ==> #[trigger] child_result(nodes, st1, i, k + 1, m, w, me, c1)
            == go_on(stop) {
            assert forall|m: int| k <= m < n implies #[trigger] child_result(nodes, st, i, k, m, w, me, c)
                == go_on(stop) by {
                if m > k {
                    assert(child_result(nodes, st1, i, k + 1, m, w, me, c1) == go_on(stop));
                }
            }
        } else {
            let m = choose|m: int| k + 1 <= m < n && !(#[trigger] child_result(nodes, st1, i, k + 1, m, w, me, c1)
                == go_on(stop));
            assert(child_result(nodes, st, i, k, m, w, me, c) != go_on(stop));
        }
    }
}

/// An all-of sequence started afresh succeeds exactly when each of its
/// children, evaluated in order within the tick, succeeds.
pub proof fn all_of_sequence_succeeds_iff_all_succeed(
    nodes: Seq<Node>,
    st: Seq<NodeState>,
    i: int,
    w: WorldView,
    me: int,
    c: GameInput,
)
    requires
        shape_wf(nodes),
        0 <= i < nodes.len(),
        nodes[i] matches Node::Sequence { stop_on_success, .. } && !stop_on_success,
        st[i] == idle(),
    ensures
        eval(nodes, st, i, w, me, c).1 == Status::Succeeded <==> (forall|m: int|
            0 <= m < width(nodes, i) ==> #[trigger] child_result(nodes, st, i, 0, m, w, me, c)
                == Status::Succeeded),
{
    assert(node_wf(nodes, i));
    lemma_run_from_all(nodes, st, i, 0, w, me, c);
}

/// A selector started afresh fails exactly when each of its children,
/// evaluated in order within the tick, fails.
pub proof fn selector_fails_iff_all_fail(
    nodes: Seq<Node>,
    st: Seq<NodeState>,
    i: int,
    w: WorldView,
    me: int,
    c: GameInput,
)
    requires
        shape_wf(nodes),
        0 <= i < nodes.len(),
        nodes[i] matches Node::Sequence { stop_on_success, .. } && stop_on_success,
        st[i] == idle(),
    ensures
        eval(nodes, st, i, w, me, c).1 == Status::Failed <==> (forall|m: int|
            0 <= m < width(nodes, i) ==> #[trigger] child_result(nodes, st, i, 0, m, w, me, c)
                == Status::Failed),
{
    assert(node_wf(nodes, i));
    lemma_run_from_all(nodes, st, i, 0, w, me, c);
}

/// A sequence run from child `k` leaves its own progress idle exactly when
/// it ends, and on the child to resume at when it runs on.
proof fn lemma_run_from_progress(
    nodes: Seq<Node>,
    st: Seq<NodeState>,
    i: int,
    k: int,
    w: WorldView,
    me: int,
    c: GameInput,
)
    requires
        shape_wf(nodes),
        0 <= i < nodes.len(),
        nodes[i] is Sequence,
        0 <= k < width(nodes, i),
        st.len() == nodes.len(),
    ensures
        ({
            let (st1, r, c1) = run_from(nodes, st, i, k, w, me, c);
            &&& st1.len() == st.len()
            &&& r == Status::Running ==> st1[i].index is Some && !st1[i].running
            &&& r != Status::Running ==> st1[i] == idle()
        }),
    decreases width(nodes, i) - k,
{
    assert(node_wf(nodes, i));
    lemma_eval_len(nodes, st, child_at(nodes, i, k), w, me, c);
    let (st1, r, c1) = eval(nodes, st, child_at(nodes, i, k), w, me, c);
    if r != Status::Running && !(r == early(nodes[i]->Sequence_stop_on_success)) && k + 1 < width(
        nodes,
        i,
    ) {
        lemma_run_from_progress(nodes, st1, i, k + 1, w, me, c1);
    }
}

/// Evaluation keeps the number of progress entries.
proof fn lemma_eval_len(
    nodes: Seq<Node>,
    st: Seq<NodeState>,
    i: int,
    w: WorldView,
    me: int,
    c: GameInput,
)
    requires
        st.len() == nodes.len(),
    ensures
        eval(nodes, st, i, w, me, c).0.len() == st.len(),
    decreases nodes.len() - i, 1int, 0int,
{
    if 0 <= i < nodes.len() {
        match nodes[i] {
            Node::Sequence { .. } => {
                let k = match st[i].index {
                    Some(k) => k as int,
                    None => 0,
                };
                lemma_run_from_len(nodes, st, i, k, w, me, c);
            },
            Node::Guard { child, .. } => {
                if i < child < nodes.len() {
                    lemma_eval_len(nodes, st, child as int, w, me, c);
                }
            },
            Node::Inverter { child } => {
                if i < child < nodes.len() {
                    lemma_eval_len(nodes, st, child as int, w, me, c);
                }
            },
            Node::Leaf { .. } => {},
        }
    }
}

proof fn lemma_run_from_len(
    nodes: Seq<Node>,
    st: Seq<NodeState>,
    i: int,
    k: int,
    w: WorldView,
    me: int,
    c: GameInput,
)
    requires
        st.len() == nodes.len(),
    ensures
        run_from(nodes, st, i, k, w, me, c).0.len() == st.len(),
    decreases nodes.len() - i, 0int, width(nodes, i) - k,
{
    if 0 <= i < nodes.len() && 0 <= k < width(nodes, i) {
        match nodes[i] {
            Node::Sequence { children, stop_on_success } => {
                let child = children@[k] as int;
                if i < child < nodes.len() {
                    lemma_eval_len(nodes, st, child, w, me, c);
                    let (st1, r, c1) = eval(nodes, st, child, w, me, c);
                    if r != Status::Running && !(r == early(stop_on_success)) && k + 1 < width(
                        nodes,
                        i,
                    ) {
                        lemma_run_from_len(nodes, st1, i, k + 1, w, me, c1);
                    }
                }
            },
            _ => {},
        }
    }
}

/// A sequence or a guard resets its own progress to idle exactly when it
/// returns a terminal result, so that its next evaluation starts afresh: a
/// sequence at its first child, a guard by testing its predicate.
pub proof fn progress_reset_on_terminal(
    nodes: Seq<Node>,
    st: Seq<NodeState>,
    i: int,
    w: WorldView,
    me: int,
    c: GameInput,
)
    requires
        shape_wf(nodes),
        0 <= i < nodes.len(),
        st.len() == nodes.len(),
        st[i].index matches Some(k) ==> k < width(nodes, i),
        nodes[i] is Sequence || nodes[i] is Guard,
    ensures
        ({
            let (st1, r, c1) = eval(nodes, st, i, w, me, c);
            &&& r != Status::Running ==> st1[i] == idle()
            &&& r == Status::Running ==> st1[i] != idle()
        }),
        st[i] == idle() && nodes[i] is Sequence ==> eval(nodes, st, i, w, me, c) == run_from(
            nodes,
            st,
            i,
            0,
            w,
            me,
            c,
        ),
        st[i] == idle() && nodes[i] is Guard && !holds(nodes[i]->Guard_predicate, w, me) ==> eval(nodes, st, i, w, me, c) == (st.update(i, idle()), Status::Failed, c),
{
    assert(node_wf(nodes, i));
    if nodes[i] is Sequence {
        let k = match st[i].index {
            Some(k) => k as int,
            None => 0,
        };
        lemma_run_from_progress(nodes, st, i, k, w, me, c);
    } else {
        let child = nodes[i]->Guard_child as int;
        lemma_eval_len(nodes, st, child, w, me, c);
    }
}

/// A child that runs on makes its parent run on, and next tick the parent
/// evaluates that same child again, with its progress as it was left: a
/// sequence resumes at the child it stopped at, and a guard that does not
/// re-test its predicate hands over to its child directly.
pub proof fn running_propagates(
    nodes: Seq<Node>,
    st: Seq<NodeState>,
    i: int,
    w: WorldView,
    me: int,
    c: GameInput,
    k: usize,
    later: Seq<NodeState>,
    w2: WorldView,
    c2: GameInput,
)
    requires
        shape_wf(nodes),
        0 <= i < nodes.len(),
        st.len() == nodes.len(),
    ensures
        nodes[i] is Sequence && k < width(nodes, i) && eval(
            nodes,
            st,
            child_at(nodes, i, k as int),
            w,
            me,
            c,
        ).1 == Status::Running ==> run_from(nodes, st, i, k as int, w, me, c) == ({
            let (st1, r, c1) = eval(nodes, st, child_at(nodes, i, k as int), w, me, c);
            (st1.update(i, NodeState { index: Some(k), running: false }), Status::Running, c1)
        }),
        nodes[i] is Sequence && 0 <= i < later.len() && later[i].index == Some(k) ==> eval(
            nodes,
            later,
            i,
            w2,
            me,
            c2,
        ) == run_from(nodes, later, i, k as int, w2, me, c2),
        nodes[i] is Guard && eval(nodes, st, nodes[i]->Guard_child as int, w, me, c).1
            == Status::Running && ((nodes[i]->Guard_reevaluate || !st[i].running) ==> holds(
            nodes[i]->Guard_predicate,
            w,
            me,
        )) ==> eval(nodes, st, i, w, me, c) == ({
            let (st1, r, c1) = eval(nodes, st, nodes[i]->Guard_child as int, w, me, c);
            (st1.update(i, NodeState { index: None, running: true }), Status::Running, c1)
        }),
        nodes[i] is Inverter && eval(nodes, st, nodes[i]->Inverter_child as int, w, me, c).1
            == Status::Running ==> eval(nodes, st, i, w, me, c).1 == Status::Running,
{
    assert(node_wf(nodes, i));
}

/// An inverter turns its child's success into failure and failure into
/// success and passes `Running` on; two inverters in a row give back the
/// result, progress and command of the node beneath them.
pub proof fn inverter_swaps(
    nodes: Seq<Node>,
    st: Seq<NodeState>,
    i: int,
    w: WorldView,
    me: int,
    c: GameInput,
)
    requires
        shape_wf(nodes),
        0 <= i < nodes.len(),
        nodes[i] is Inverter,
    ensures
        ({
            let (st1, r, c1) = eval(nodes, st, nodes[i]->Inverter_child as int, w, me, c);
            &&& eval(nodes, st, i, w, me, c) == (st1, invert(r), c1)
            &&& r == Status::Running ==> invert(r) == Status::Running
            &&& r == Status::Succeeded ==> invert(r) == Status::Failed
            &&& r == Status::Failed ==> invert(r) == Status::Succeeded
            &&& invert(invert(r)) == r
        }),
        nodes[nodes[i]->Inverter_child as int] is Inverter ==> eval(nodes, st, i, w, me, c)
            == eval(
            nodes,
            st,
            nodes[nodes[i]->Inverter_child as int]->Inverter_child as int,
            w,
            me,
            c,
        ),
{
    assert(node_wf(nodes, i));
    let j = nodes[i]->Inverter_child as int;
    assert(node_wf(nodes, j));
}

/// A guard that is not running fails at once when its predicate is false,
/// leaving its child and the command untouched; once running without
/// re-testing, its result is its child's, whatever the predicate says.
pub proof fn guard_gates(
    nodes: Seq<Node>,
    st: Seq<NodeState>,
    i: int,
    w: WorldView,
    me: int,
    c: GameInput,
)
    requires
        shape_wf(nodes),
        0 <= i < nodes.len(),
        nodes[i] is Guard,
    ensures
        !st[i].running && !holds(nodes[i]->Guard_predicate, w, me) ==> eval(nodes, st, i, w, me, c)
            == (st.update(i, idle()), Status::Failed, c),
        st[i].running && !nodes[i]->Guard_reevaluate ==> ({
            let (st1, r, c1) = eval(nodes, st, nodes[i]->Guard_child as int, w, me, c);
            let (st2, r2, c2) = eval(nodes, st, i, w, me, c);
            r2 == r && c2 == c1 && st2 == st1.update(
                i,
                if r == Status::Running {
                    NodeState { index: None, running: true }
                } else {
                    idle()
                },
            )
        }),
{
    assert(node_wf(nodes, i));
}

} // verus!
