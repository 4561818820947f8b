//! What holds of every assembled call frame tree.

use vstd::prelude::*;
use crate::call_frame::{
    call_tree_frame, child_frames, child_selfdestructs, is_child_of, node_frame, own_selfdestruct,
    selfdestruct_frame, selfdestruct_name, synthetic_frames, CallFrameView,
};
use crate::call_tree::{parent_precedes, well_formed, CallKind, CallTraceNode};

verus! {

/// The children of `parent` among the nodes from `from` on, in ascending order.
pub open spec fn children_from(nodes: Seq<CallTraceNode>, parent: int, from: int) -> Seq<int>
    decreases nodes.len() - from,
{
    if 0 <= parent < from < nodes.len() {
        let later = children_from(nodes, parent, from + 1);
        if is_child_of(nodes, from, parent) {
            seq![from] + later
        } else {
            later
        }
    } else {
        Seq::empty()
    }
}

/// The children of `node`, in ascending order.
pub open spec fn children_of(nodes: Seq<CallTraceNode>, node: int) -> Seq<int> {
    children_from(nodes, node, node + 1)
}

/// The children of a node are listed in ascending order, and each node from
/// `from` on that names `parent` as its parent is listed.
pub proof fn lemma_children_ascend(nodes: Seq<CallTraceNode>, parent: int, from: int)
    requires
        0 <= parent < from,
    ensures
        forall|i: int|
            0 <= i < children_from(nodes, parent, from).len() ==> {
                let child = #[trigger] children_from(nodes, parent, from)[i];
                from <= child < nodes.len() && is_child_of(nodes, child, parent)
            },
        forall|i: int, j: int|
            0 <= i < j < children_from(nodes, parent, from).len() ==> children_from(nodes, parent, from)[i]
                < children_from(nodes, parent, from)[j],
        forall|child: int|
            from <= child < nodes.len() && is_child_of(nodes, child, parent) ==> children_from(
                nodes,
                parent,
                from,
            ).contains(child),
    decreases nodes.len() - from,
{
    if from < nodes.len() {
        lemma_children_ascend(nodes, parent, from + 1);
        let later = children_from(nodes, parent, from + 1);
        let all = children_from(nodes, parent, from);
        if is_child_of(nodes, from, parent) {
            assert(all == seq![from] + later);
            assert forall|i: int| 0 <= i < all.len() implies {
                let child = #[trigger] all[i];
                from <= child < nodes.len() && is_child_of(nodes, child, parent)
            } by {
                if i > 0 {
                    assert(all[i] == later[i - 1]);
                }
            }
            assert forall|i: int, j: int| 0 <= i < j < all.len() implies all[i] < all[j] by {
                assert(all[j] == later[j - 1]);
                if i > 0 {
                    assert(all[i] == later[i - 1]);
                }
            }
            assert forall|child: int|
                from <= child < nodes.len() && is_child_of(nodes, child, parent) implies all.contains(child) by {
                if child == from {
                    assert(all[0] == child);
                } else {
                    assert(later.contains(child));
                    let at = choose|at: int| 0 <= at < later.len() && later[at] == child;
                    assert(all[at + 1] == child);
                }
            }
        } else {
            assert(all == later);
            assert forall|child: int|
                from <= child < nodes.len() && is_child_of(nodes, child, parent) implies all.contains(child) by {
                assert(later.contains(child));
            }
        }
    }
}

/// The calls in a frame follow the children of its node: the frame of the
/// first child comes first, that of the second child second, and so on. As
/// the children are listed by ascending index, the calls stand in the order
/// in which the nodes were recorded.
pub proof fn lemma_calls_follow_children(nodes: Seq<CallTraceNode>, parent: int, from: int, include_logs: bool)
    requires
        0 <= parent < from,
    ensures
        child_frames(nodes, parent, from, include_logs).len() == children_from(nodes, parent, from).len(),
        forall|i: int|
            0 <= i < children_from(nodes, parent, from).len() ==> #[trigger] child_frames(
                nodes,
                parent,
                from,
                include_logs,
            )[i] == node_frame(nodes, children_from(nodes, parent, from)[i], include_logs),
    decreases nodes.len() - from,
{
    if from < nodes.len() {
        lemma_calls_follow_children(nodes, parent, from + 1, include_logs);
        let later = children_from(nodes, parent, from + 1);
        let all = children_from(nodes, parent, from);
        let frames = child_frames(nodes, parent, from, include_logs);
        let later_frames = child_frames(nodes, parent, from + 1, include_logs);
        if is_child_of(nodes, from, parent) {
            assert(all == seq![from] + later);
            assert(frames == seq![node_frame(nodes, from, include_logs)] + later_frames);
            assert forall|i: int| 0 <= i < all.len() implies #[trigger] frames[i] == node_frame(
                nodes,
                all[i],
                include_logs,
            ) by {
                if i > 0 {
                    assert(all[i] == later[i - 1]);
                    assert(frames[i] == later_frames[i - 1]);
                }
            }
        }
    }
}

/// The calls of the frame of `node` are the frames of its children, in the
/// order of their indices, and behind them the frames made up for self-destructs.
pub proof fn lemma_frame_calls_in_call_order(nodes: Seq<CallTraceNode>, node: int, include_logs: bool)
    requires
        0 <= node < nodes.len(),
    ensures
        node_frame(nodes, node, include_logs).calls == Seq::new(
            children_of(nodes, node).len(),
            |i: int| node_frame(nodes, children_of(nodes, node)[i], include_logs),
        ) + synthetic_frames(nodes, node),
        forall|i: int, j: int|
            0 <= i < j < children_of(nodes, node).len() ==> children_of(nodes, node)[i] < children_of(
                nodes,
                node,
            )[j],
        forall|child: int|
            0 <= child < nodes.len() && is_child_of(nodes, child, node) && node < child ==> children_of(
                nodes,
                node,
            ).contains(child),
        forall|i: int|
            0 <= i < children_of(nodes, node).len() ==> is_child_of(
                nodes,
                #[trigger] children_of(nodes, node)[i],
                node,
            ),
{
    lemma_children_ascend(nodes, node, node + 1);
    lemma_calls_follow_children(nodes, node, node + 1, include_logs);
    assert(child_frames(nodes, node, node + 1, include_logs) =~= Seq::new(
        children_of(nodes, node).len(),
        |i: int| node_frame(nodes, children_of(nodes, node)[i], include_logs),
    ));
}

/// Whether the frame is made up for a self-destruct.
pub open spec fn is_synthetic(frame: CallFrameView) -> bool {
    frame.typ == selfdestruct_name()
}

/// The number of frames in the tree of `frame` that stand for a call node.
pub open spec fn frame_count(frame: CallFrameView) -> nat
    decreases frame,
{
    if is_synthetic(frame) {
        frames_count(frame.calls)
    } else {
        1 + frames_count(frame.calls)
    }
}

/// The number of frames in the trees of `frames` that stand for a call node.
pub open spec fn frames_count(frames: Seq<CallFrameView>) -> nat
    decreases frames,
{
    if frames.len() == 0 {
        0
    } else {
        frame_count(frames[0]) + frames_count(frames.subrange(1, frames.len() as int))
    }
}

/// The frames of two lists count together what they count apart.
proof fn lemma_count_adds(a: Seq<CallFrameView>, b: Seq<CallFrameView>)
    ensures
        frames_count(a + b) == frames_count(a) + frames_count(b),
    decreases a.len(),
{
    if a.len() == 0 {
        assert(a + b =~= b);
    } else {
        let rest = a.subrange(1, a.len() as int);
        lemma_count_adds(rest, b);
        assert((a + b).subrange(1, (a + b).len() as int) =~= rest + b);
        assert((a + b)[0] == a[0]);
    }
}

/// A list of one frame counts what the frame counts.
proof fn lemma_count_one(frame: CallFrameView)
    ensures
        frames_count(seq![frame]) == frame_count(frame),
{
    let one = seq![frame];
    assert(one.subrange(1, one.len() as int) =~= Seq::<CallFrameView>::empty());
    assert(frames_count(Seq::<CallFrameView>::empty()) == 0);
    assert(one[0] == frame);
}

/// No kind of call has the name that marks a self-destruct.
proof fn lemma_kind_is_not_synthetic(kind: CallKind)
    ensures
        kind.name() != selfdestruct_name(),
{
    reveal_strlit("SELFDESTRUCT");
    reveal_strlit("CALL");
    reveal_strlit("STATICCALL");
    reveal_strlit("CALLCODE");
    reveal_strlit("DELEGATECALL");
    reveal_strlit("CREATE");
    reveal_strlit("CREATE2");
    assert("SELFDESTRUCT"@.len() == 12);
    assert("SELFDESTRUCT"@[0] == 'S');
    match kind {
        CallKind::Call => {
            assert("CALL"@.len() == 4);
        },
        CallKind::StaticCall => {
            assert("STATICCALL"@.len() == 10);
        },
        CallKind::CallCode => {
            assert("CALLCODE"@.len() == 8);
        },
        CallKind::DelegateCall => {
            assert("DELEGATECALL"@[0] == 'D');
        },
        CallKind::Create => {
            assert("CREATE"@.len() == 6);
        },
        CallKind::Create2 => {
            assert("CREATE2"@.len() == 7);
        },
    }
}

/// The frames made up for self-destructs count nothing.
proof fn lemma_selfdestructs_count_nothing(nodes: Seq<CallTraceNode>, parent: int, upto: int)
    ensures
        frames_count(child_selfdestructs(nodes, parent, upto)) == 0,
    decreases upto,
{
    if 1 < upto <= nodes.len() {
        lemma_selfdestructs_count_nothing(nodes, parent, upto - 1);
        let earlier = child_selfdestructs(nodes, parent, upto - 1);
        let made_up = selfdestruct_frame(nodes[upto - 1]);
        lemma_count_adds(earlier, seq![made_up]);
        lemma_count_one(made_up);
        assert(earlier.push(made_up) =~= earlier + seq![made_up]);
    }
}

/// The frames made up for self-destructs in the frame of `node` count nothing.
proof fn lemma_synthetic_count_nothing(nodes: Seq<CallTraceNode>, node: int)
    ensures
        frames_count(synthetic_frames(nodes, node)) == 0,
{
    lemma_selfdestructs_count_nothing(nodes, node, nodes.len() as int);
    lemma_count_adds(own_selfdestruct(nodes, node), child_selfdestructs(nodes, node, nodes.len() as int));
    if node == 0 && nodes[0].is_selfdestruct() {
        lemma_count_one(selfdestruct_frame(nodes[0]));
    }
}

/// The frame of a node counts the node and what the frames of its children count.
proof fn lemma_node_frame_count(nodes: Seq<CallTraceNode>, node: int, include_logs: bool)
    ensures
        frame_count(node_frame(nodes, node, include_logs)) == 1 + frames_count(
            child_frames(nodes, node, node + 1, include_logs),
        ),
{
    lemma_kind_is_not_synthetic(nodes[node].trace.kind);
    lemma_synthetic_count_nothing(nodes, node);
    lemma_count_adds(child_frames(nodes, node, node + 1, include_logs), synthetic_frames(nodes, node));
}

/// What the first `upto` nodes count while the tree is assembled and the
/// nodes from `from` on are in their parents' frames: each node itself, and
/// what the frames of its children from `from` on count.
pub open spec fn staged_count(nodes: Seq<CallTraceNode>, from: int, upto: int, include_logs: bool) -> nat
    decreases upto,
{
    if 0 < upto {
        staged_count(nodes, from, upto - 1, include_logs) + 1 + frames_count(
            child_frames(nodes, upto - 1, from, include_logs),
        )
    } else {
        0
    }
}

/// With no node moved yet, the first `upto` nodes count `upto`.
proof fn lemma_staged_count_at_start(nodes: Seq<CallTraceNode>, upto: int, include_logs: bool)
    requires
        0 <= upto,
    ensures
        staged_count(nodes, nodes.len() as int, upto, include_logs) == upto,
    decreases upto,
{
    if 0 < upto {
        lemma_staged_count_at_start(nodes, upto - 1, include_logs);
    }
}

/// Moving node `moved` into its parent's frame adds what its frame counts to
/// the count of the nodes up to its parent, and changes no other count.
proof fn lemma_staged_count_step(nodes: Seq<CallTraceNode>, moved: int, parent: int, upto: int, include_logs: bool)
    requires
        0 <= parent < moved < nodes.len(),
        nodes[moved].parent == Some(parent as usize),
        parent <= usize::MAX,
        0 <= upto <= moved,
    ensures
        staged_count(nodes, moved, upto, include_logs) == staged_count(nodes, moved + 1, upto, include_logs) + (
        if parent < upto {
            frame_count(node_frame(nodes, moved, include_logs))
        } else {
            0
        }),
    decreases upto,
{
    if 0 < upto {
        lemma_staged_count_step(nodes, moved, parent, upto - 1, include_logs);
        let node = upto - 1;
        let later = child_frames(nodes, node, moved + 1, include_logs);
        if node == parent {
            assert(is_child_of(nodes, moved, node));
            let frame = node_frame(nodes, moved, include_logs);
            assert(child_frames(nodes, node, moved, include_logs) == seq![frame] + later);
            lemma_count_adds(seq![frame], later);
            lemma_count_one(frame);
        } else {
            assert(!is_child_of(nodes, moved, node));
            assert(child_frames(nodes, node, moved, include_logs) == later);
        }
    }
}

/// With the nodes from `from` on moved into their parents' frames, the nodes
/// before `from` count all nodes.
proof fn lemma_staged_count_is_all(nodes: Seq<CallTraceNode>, from: int, include_logs: bool)
    requires
        well_formed(nodes),
        1 <= from <= nodes.len(),
    ensures
        staged_count(nodes, from, from, include_logs) == nodes.len(),
    decreases nodes.len() - from,
{
    if from == nodes.len() {
        lemma_staged_count_at_start(nodes, from, include_logs);
    } else {
        lemma_staged_count_is_all(nodes, from + 1, include_logs);
        assert(parent_precedes(nodes, from));
        let parent = nodes[from].parent->0 as int;
        lemma_staged_count_step(nodes, from, parent, from, include_logs);
        lemma_node_frame_count(nodes, from, include_logs);
    }
}

/// The assembled tree holds one frame for each node of the call tree, the
/// frames made up for self-destructs not counted.
pub proof fn lemma_one_frame_for_each_node(nodes: Seq<CallTraceNode>, include_logs: bool, gas_used: u64)
    requires
        well_formed(nodes),
        nodes.len() > 0,
    ensures
        frame_count(call_tree_frame(nodes, include_logs, gas_used)) == nodes.len(),
{
    lemma_staged_count_is_all(nodes, 1, include_logs);
    lemma_node_frame_count(nodes, 0, include_logs);
    assert(staged_count(nodes, 1, 0, include_logs) == 0);
    lemma_kind_is_not_synthetic(nodes[0].trace.kind);
    let frame = node_frame(nodes, 0, include_logs);
    assert(frame_count(call_tree_frame(nodes, include_logs, gas_used)) == frame_count(frame));
}

} // verus!
