//! The call frame tree: the flat call tree assembled into nested frames.
//!
//! Every node gives one frame. A frame's calls are the frames of the node's
//! children in the order of their indices, which is the order in which the
//! calls were made. Behind them stand the frames that are made up for
//! self-destructs, which the call tree records as no node of their own.

use vstd::prelude::*;
use crate::builder::GethTraceBuilder;
use crate::call_tree::{parent_precedes, well_formed, CallKind, CallTraceNode};
use crate::primitives::{copy_bytes, copy_words, Address, H256, U256};

verus! {

/// What the call tracer is asked for.
#[derive(Clone, Copy, Debug, PartialEq, Eq)]
pub struct CallConfig {
    /// Give the outermost call alone, without the calls below it; off unless set.
    pub only_top_call: Option<bool>,
    /// Give the logs of each call; off unless set.
    pub with_log: Option<bool>,
}

impl CallConfig {
    /// Whether the outermost call alone is asked for.
    pub open spec fn spec_is_only_top_call(&self) -> bool {
        self.only_top_call == Some(true)
    }

    /// Whether the outermost call alone is asked for.
    #[verifier::when_used_as_spec(spec_is_only_top_call)]
    pub fn is_only_top_call(&self) -> (only: bool)
        ensures
            only == self.spec_is_only_top_call(),
    {
        match self.only_top_call {
            Some(only) => only,
            None => false,
        }
    }

    /// Whether logs are asked for.
    pub open spec fn spec_is_with_log(&self) -> bool {
        self.with_log == Some(true)
    }

    /// Whether logs are asked for.
    #[verifier::when_used_as_spec(spec_is_with_log)]
    pub fn is_with_log(&self) -> (with_log: bool)
        ensures
            with_log == self.spec_is_with_log(),
    {
        match self.with_log {
            Some(with_log) => with_log,
            None => false,
        }
    }
}

/// A log in a call frame.
#[derive(Debug, PartialEq, Eq)]
pub struct CallLogFrame {
    /// The account that emitted the log.
    pub address: Option<Address>,
    pub topics: Option<Vec<H256>>,
    pub data: Option<Vec<u8>>,
}

/// What a log in a call frame says.
pub struct CallLogFrameView {
    pub address: Option<Address>,
    pub topics: Option<Seq<H256>>,
    pub data: Option<Seq<u8>>,
}

impl View for CallLogFrame {
    type V = CallLogFrameView;

    open spec fn view(&self) -> CallLogFrameView {
        CallLogFrameView {
            address: self.address,
            topics: match self.topics {
                Some(topics) => Some(topics@),
                None => None,
            },
            data: match self.data {
                Some(data) => Some(data@),
                None => None,
            },
        }
    }
}

/// A call with the calls made inside it.
#[derive(Debug, PartialEq, Eq)]
pub struct CallFrame {
    /// The kind of the call, by name.
    pub typ: String,
    pub from: Address,
    pub to: Option<Address>,
    pub value: Option<U256>,
    /// The gas that the call was given.
    pub gas: U256,
    /// The gas that the call used.
    pub gas_used: U256,
    pub input: Vec<u8>,
    /// What the call returned, unless it returned nothing.
    pub output: Option<Vec<u8>>,
    /// What went wrong, for a call that failed.
    pub error: Option<String>,
    /// The calls made inside this call, in the order they were made.
    pub calls: Vec<CallFrame>,
    /// The logs that the call emitted, where logs were asked for.
    pub logs: Vec<CallLogFrame>,
}

/// What a call frame says.
pub struct CallFrameView {
    pub typ: Seq<char>,
    pub from: Address,
    pub to: Option<Address>,
    pub value: Option<U256>,
    pub gas: U256,
    pub gas_used: U256,
    pub input: Seq<u8>,
    pub output: Option<Seq<u8>>,
    pub error: Option<Seq<char>>,
    pub calls: Seq<CallFrameView>,
    pub logs: Seq<CallLogFrameView>,
}

impl View for CallFrame {
    type V = CallFrameView;

    open spec fn view(&self) -> CallFrameView
        decreases self,
    {
        CallFrameView {
            typ: self.typ@,
            from: self.from,
            to: self.to,
            value: self.value,
            gas: self.gas,
            gas_used: self.gas_used,
            input: self.input@,
            output: match self.output {
                Some(output) => Some(output@),
                None => None,
            },
            error: match self.error {
                Some(error) => Some(error@),
                None => None,
            },
            calls: Seq::new(
                self.calls@.len(),
                |i: int|
                    if 0 <= i < self.calls@.len() {
                        self.calls@[i]@
                    } else {
                        arbitrary()
                    },
            ),
            logs: Seq::new(self.logs@.len(), |i: int| self.logs@[i]@),
        }
    }
}

impl CallFrameView {
    /// The frame of an empty call tree: no kind, the zero address, zero gas and nothing else.
    pub open spec fn empty() -> CallFrameView {
        CallFrameView {
            typ: Seq::empty(),
            from: Address { hi: 0, lo: 0 },
            to: None,
            value: None,
            gas: U256 { hi: 0, lo: 0 },
            gas_used: U256 { hi: 0, lo: 0 },
            input: Seq::empty(),
            output: None,
            error: None,
            calls: Seq::empty(),
            logs: Seq::empty(),
        }
    }

    /// The frame with `calls` as its calls.
    pub open spec fn with_calls(self, calls: Seq<CallFrameView>) -> CallFrameView {
        CallFrameView {
            typ: self.typ,
            from: self.from,
            to: self.to,
            value: self.value,
            gas: self.gas,
            gas_used: self.gas_used,
            input: self.input,
            output: self.output,
            error: self.error,
            calls: calls,
            logs: self.logs,
        }
    }

    /// The frame with `gas_used` as the gas it used.
    pub open spec fn with_gas_used(self, gas_used: U256) -> CallFrameView {
        CallFrameView {
            typ: self.typ,
            from: self.from,
            to: self.to,
            value: self.value,
            gas: self.gas,
            gas_used: gas_used,
            input: self.input,
            output: self.output,
            error: self.error,
            calls: self.calls,
            logs: self.logs,
        }
    }
}

impl Default for CallFrame {
    /// The frame of an empty call tree.
    fn default() -> (frame: CallFrame)
        ensures
            frame@ == CallFrameView::empty(),
    {
        let frame = CallFrame {
            typ: String::new(),
            from: Address::zero(),
            to: None,
            value: None,
            gas: U256::zero(),
            gas_used: U256::zero(),
            input: Vec::new(),
            output: None,
            error: None,
            calls: Vec::new(),
            logs: Vec::new(),
        };
        assert(frame@.calls =~= Seq::empty());
        assert(frame@.logs =~= Seq::empty());
        frame
    }
}

/// The name that marks a frame made up for a self-destruct.
pub open spec fn selfdestruct_name() -> Seq<char> {
    "SELFDESTRUCT"@
}

/// The account in whose context the call of `node` ran: the caller's for a
/// delegated call, else the account called.
pub open spec fn execution_address(node: CallTraceNode) -> Address {
    if node.trace.kind == CallKind::DelegateCall || node.trace.kind == CallKind::CallCode {
        node.trace.caller
    } else {
        node.trace.address
    }
}

/// The logs of `node` as its frame gives them: all of them where logs are
/// asked for, none where they are not.
pub open spec fn log_frames(node: CallTraceNode, include_logs: bool) -> Seq<CallLogFrameView> {
    if include_logs {
        Seq::new(
            node.logs@.len(),
            |i: int|
                CallLogFrameView {
                    address: Some(execution_address(node)),
                    topics: Some(node.logs@[i].topics@),
                    data: Some(node.logs@[i].data@),
                },
        )
    } else {
        Seq::empty()
    }
}

/// The frame of `node` without any calls in it.
pub open spec fn empty_call_frame(node: CallTraceNode, include_logs: bool) -> CallFrameView {
    CallFrameView {
        typ: node.trace.kind.name(),
        from: node.trace.caller,
        to: Some(node.trace.address),
        value: Some(node.trace.value),
        gas: U256::spec_from_u64(node.trace.gas_limit),
        gas_used: U256::spec_from_u64(node.trace.gas_used),
        input: node.trace.data@,
        output: if node.trace.output@.len() > 0 {
            Some(node.trace.output@)
        } else {
            None
        },
        error: if node.trace.success {
            None
        } else {
            match node.trace.error {
                Some(error) => Some(error@),
                None => None,
            }
        },
        calls: Seq::empty(),
        logs: log_frames(node, include_logs),
    }
}

/// The frame made up for the self-destruct that ended the call of `node`.
pub open spec fn selfdestruct_frame(node: CallTraceNode) -> CallFrameView {
    CallFrameView {
        typ: selfdestruct_name(),
        from: node.trace.caller,
        to: node.trace.selfdestruct_refund_target,
        value: Some(node.trace.value),
        gas: U256 { hi: 0, lo: 0 },
        gas_used: U256 { hi: 0, lo: 0 },
        input: Seq::empty(),
        output: None,
        error: None,
        calls: Seq::empty(),
        logs: Seq::empty(),
    }
}

/// Whether node `child` names `parent` as its parent.
pub open spec fn is_child_of(nodes: Seq<CallTraceNode>, child: int, parent: int) -> bool {
    match nodes[child].parent {
        Some(named) => named == parent,
        None => false,
    }
}

/// The self-destruct frame of the outermost call, which stands in its own frame.
pub open spec fn own_selfdestruct(nodes: Seq<CallTraceNode>, node: int) -> Seq<CallFrameView> {
    if node == 0 && nodes[0].is_selfdestruct() {
        seq![selfdestruct_frame(nodes[0])]
    } else {
        Seq::empty()
    }
}

/// The self-destruct frames of the children of `parent` among the nodes
/// before `upto`, in the order of the children's indices.
pub open spec fn child_selfdestructs(nodes: Seq<CallTraceNode>, parent: int, upto: int) -> Seq<CallFrameView>
    decreases upto,
{
    if 1 < upto <= nodes.len() {
        let earlier = child_selfdestructs(nodes, parent, upto - 1);
        if is_child_of(nodes, upto - 1, parent) && nodes[upto - 1].is_selfdestruct() {
            earlier.push(selfdestruct_frame(nodes[upto - 1]))
        } else {
            earlier
        }
    } else {
        Seq::empty()
    }
}

/// The frames made up for self-destructs that stand in the frame of `node`:
/// its own if it is the outermost call, then those of its children.
pub open spec fn synthetic_frames(nodes: Seq<CallTraceNode>, node: int) -> Seq<CallFrameView> {
    own_selfdestruct(nodes, node) + child_selfdestructs(nodes, node, nodes.len() as int)
}

/// The frames of the children of `parent` among the nodes from `from` on, in
/// the order of the children's indices. Each holds the whole call tree below it.
pub open spec fn child_frames(nodes: Seq<CallTraceNode>, parent: int, from: int, include_logs: bool) -> Seq<
    CallFrameView,
>
    decreases nodes.len() - parent, nodes.len() - from,
{
    if 0 <= parent < from < nodes.len() {
        let later = child_frames(nodes, parent, from + 1, include_logs);
        if is_child_of(nodes, from, parent) {
            seq![
                empty_call_frame(nodes[from], include_logs).with_calls(
                    child_frames(nodes, from, from + 1, include_logs) + synthetic_frames(nodes, from),
                ),
            ] + later
        } else {
            later
        }
    } else {
        Seq::empty()
    }
}

/// The frame of `node` with the whole call tree below it.
pub open spec fn node_frame(nodes: Seq<CallTraceNode>, node: int, include_logs: bool) -> CallFrameView {
    empty_call_frame(nodes[node], include_logs).with_calls(
        child_frames(nodes, node, node + 1, include_logs) + synthetic_frames(nodes, node),
    )
}

/// The frame of the outermost call alone: no frame of another node is in it
/// or looked at; its only call is the frame made up for its own self-destruct,
/// if it ended by one. The gas it used is the gas that the transaction used.
pub open spec fn top_call_frame(nodes: Seq<CallTraceNode>, include_logs: bool, gas_used: u64) -> CallFrameView {
    empty_call_frame(nodes[0], include_logs).with_calls(own_selfdestruct(nodes, 0)).with_gas_used(
        U256::spec_from_u64(gas_used),
    )
}

/// The frame of the outermost call with the whole call tree below it. The gas
/// it used is the gas that the transaction used.
pub open spec fn call_tree_frame(nodes: Seq<CallTraceNode>, include_logs: bool, gas_used: u64) -> CallFrameView {
    node_frame(nodes, 0, include_logs).with_gas_used(U256::spec_from_u64(gas_used))
}

/// The frame of `node` while the tree is assembled: the children from `from`
/// on are in it, and the self-destruct frames of the children before `upto`.
pub open spec fn staged_frame(
    nodes: Seq<CallTraceNode>,
    node: int,
    from: int,
    upto: int,
    include_logs: bool,
    gas_used: u64,
) -> CallFrameView {
    let frame = empty_call_frame(nodes[node], include_logs).with_calls(
        child_frames(nodes, node, from, include_logs) + (own_selfdestruct(nodes, node) + child_selfdestructs(
            nodes,
            node,
            upto,
        )),
    );
    if node == 0 {
        frame.with_gas_used(U256::spec_from_u64(gas_used))
    } else {
        frame
    }
}

/// What each of `logs` says.
pub open spec fn log_frame_views(logs: Seq<CallLogFrame>) -> Seq<CallLogFrameView> {
    Seq::new(logs.len(), |i: int| logs[i]@)
}

impl CallTraceNode {
    /// The account in whose context the call ran.
    pub fn execution_address(&self) -> (address: Address)
        ensures
            address == execution_address(*self),
    {
        match self.trace.kind {
            CallKind::DelegateCall => self.trace.caller,
            CallKind::CallCode => self.trace.caller,
            _ => self.trace.address,
        }
    }

    /// The logs of the call as its frame gives them.
    fn geth_log_frames(&self, include_logs: bool) -> (logs: Vec<CallLogFrame>)
        ensures
            log_frame_views(logs@) == log_frames(*self, include_logs),
    {
        let mut logs: Vec<CallLogFrame> = Vec::new();
        if !include_logs {
            assert(log_frame_views(logs@) =~= log_frames(*self, include_logs));
            return logs;
        }
        let address = self.execution_address();
        let mut at: usize = 0;
        while at < self.logs.len()
            invariant
                include_logs,
                address == execution_address(*self),
                at <= self.logs@.len(),
                logs@.len() == at,
                forall|i: int| 0 <= i < at ==> (#[trigger] logs@[i])@ == log_frames(*self, include_logs)[i],
            decreases self.logs@.len() - at,
        {
            let log = &self.logs[at];
            logs.push(
                CallLogFrame {
                    address: Some(address),
                    topics: Some(copy_words(&log.topics)),
                    data: Some(copy_bytes(&log.data)),
                },
            );
            at += 1;
        }
        assert(log_frame_views(logs@) =~= log_frames(*self, include_logs));
        logs
    }

    /// The frame of the call without any calls in it.
    pub fn geth_empty_call_frame(&self, include_logs: bool) -> (frame: CallFrame)
        ensures
            frame@ == empty_call_frame(*self, include_logs),
    {
        let output = if self.trace.output.len() > 0 {
            Some(copy_bytes(&self.trace.output))
        } else {
            None
        };
        let error = if self.trace.success {
            None
        } else {
            match &self.trace.error {
                Some(error) => Some(error.clone()),
                None => None,
            }
        };
        let frame = CallFrame {
            typ: self.trace.kind.as_str().to_owned(),
            from: self.trace.caller,
            to: Some(self.trace.address),
            value: Some(self.trace.value),
            gas: U256::from_u64(self.trace.gas_limit),
            gas_used: U256::from_u64(self.trace.gas_used),
            input: copy_bytes(&self.trace.data),
            output,
            error,
            calls: Vec::new(),
            logs: self.geth_log_frames(include_logs),
        };
        assert(frame@.calls =~= Seq::empty());
        assert(frame@.logs =~= log_frame_views(frame.logs@));
        frame
    }

    /// The frame made up for the self-destruct that ended the call, if one did.
    pub fn geth_selfdestruct_call_trace(&self) -> (frame: Option<CallFrame>)
        ensures
            match frame {
                Some(frame) => self.is_selfdestruct() && frame@ == selfdestruct_frame(*self),
                None => !self.is_selfdestruct(),
            },
    {
        if self.is_selfdestruct() {
            let frame = CallFrame {
                typ: "SELFDESTRUCT".to_owned(),
                from: self.trace.caller,
                to: self.trace.selfdestruct_refund_target,
                value: Some(self.trace.value),
                gas: U256::zero(),
                gas_used: U256::zero(),
                input: Vec::new(),
                output: None,
                error: None,
                calls: Vec::new(),
                logs: Vec::new(),
            };
            assert(frame@.calls =~= Seq::empty());
            assert(frame@.logs =~= Seq::empty());
            Some(frame)
        } else {
            None
        }
    }
}

/// No child of `parent` stands at or before it.
proof fn lemma_no_early_child(nodes: Seq<CallTraceNode>, parent: int, upto: int)
    requires
        well_formed(nodes),
        0 <= parent < nodes.len(),
        upto <= parent + 1,
    ensures
        child_selfdestructs(nodes, parent, upto) == Seq::<CallFrameView>::empty(),
    decreases upto,
{
    if 1 < upto <= nodes.len() {
        lemma_no_early_child(nodes, parent, upto - 1);
        assert(parent_precedes(nodes, upto - 1));
    }
}

/// The frame of the outermost call with the gas that the transaction used and,
/// if the call ended by self-destruct, the frame made up for that; no other
/// frame is in it yet.
fn stage_root_frame(nodes: &Vec<CallTraceNode>, include_logs: bool, gas_used: u64) -> (frame: CallFrame)
    requires
        nodes.len() > 0,
    ensures
        frame@ == staged_frame(nodes@, 0, nodes@.len() as int, 1, include_logs, gas_used),
{
    proof {
        reveal_with_fuel(<CallFrame as View>::view, 2);
    }
    let mut root_call_frame = nodes[0].geth_empty_call_frame(include_logs);
    root_call_frame.gas_used = U256::from_u64(gas_used);
    match nodes[0].geth_selfdestruct_call_trace() {
        Some(selfdestruct) => {
            root_call_frame.calls.push(selfdestruct);
        },
        None => {},
    }
    assert(root_call_frame@.calls =~= child_frames(nodes@, 0, nodes@.len() as int, include_logs) + (
    own_selfdestruct(nodes@, 0) + child_selfdestructs(nodes@, 0, 1)));
    root_call_frame
}

/// One frame for each node, without the children in them yet, but with the
/// frames that are made up for self-destructs.
fn stage_call_frames(
    nodes: &Vec<CallTraceNode>,
    root_call_frame: CallFrame,
    include_logs: bool,
    gas_used: u64,
) -> (call_frames: Vec<CallFrame>)
    requires
        well_formed(nodes@),
        nodes.len() > 0,
        root_call_frame@ == staged_frame(nodes@, 0, nodes@.len() as int, 1, include_logs, gas_used),
    ensures
        call_frames@.len() == nodes@.len(),
        forall|node: int|
            0 <= node < nodes@.len() ==> (#[trigger] call_frames@[node])@ == staged_frame(
                nodes@,
                node,
                nodes@.len() as int,
                nodes@.len() as int,
                include_logs,
                gas_used,
            ),
{
    let mut call_frames: Vec<CallFrame> = Vec::new();
    call_frames.push(root_call_frame);
    let mut idx: usize = 1;
    while idx < nodes.len()
        invariant
            well_formed(nodes@),
            1 <= idx <= nodes.len(),
            call_frames@.len() == idx,
            forall|node: int|
                0 <= node < idx ==> (#[trigger] call_frames@[node])@ == staged_frame(
                    nodes@,
                    node,
                    nodes@.len() as int,
                    idx as int,
                    include_logs,
                    gas_used,
                ),
        decreases nodes.len() - idx,
    {
        proof {
            reveal_with_fuel(<CallFrame as View>::view, 2);
        }
        let ghost staged = call_frames@;
        assert(parent_precedes(nodes@, idx as int));
        let parent = nodes[idx].parent.unwrap();
        match nodes[idx].geth_selfdestruct_call_trace() {
            Some(selfdestruct) => {
                let ghost before = call_frames@[parent as int]@;
                call_frames[parent].calls.push(selfdestruct);
                assert(call_frames@[parent as int]@.calls =~= before.calls.push(selfdestruct@));
                assert(call_frames@[parent as int]@ == before.with_calls(before.calls.push(selfdestruct@)));
            },
            None => {},
        }
        let frame = nodes[idx].geth_empty_call_frame(include_logs);
        proof {
            lemma_no_early_child(nodes@, idx as int, idx as int + 1);
            assert(frame@.calls =~= child_frames(nodes@, idx as int, nodes@.len() as int, include_logs) + (
            own_selfdestruct(nodes@, idx as int) + child_selfdestructs(nodes@, idx as int, idx as int + 1)));
        }
        call_frames.push(frame);
        proof {
            assert forall|node: int| 0 <= node < idx + 1 implies (#[trigger] call_frames@[node])@ == staged_frame(
                nodes@,
                node,
                nodes@.len() as int,
                idx as int + 1,
                include_logs,
                gas_used,
            ) by {
                if node < idx {
                    let was = staged[node]@;
                    assert(was == staged_frame(nodes@, node, nodes@.len() as int, idx as int, include_logs, gas_used));
                    if node != parent {
                        assert(call_frames@[node] == staged[node]);
                    }
                    assert(call_frames@[node]@.calls =~= child_frames(
                        nodes@,
                        node,
                        nodes@.len() as int,
                        include_logs,
                    ) + (own_selfdestruct(nodes@, node) + child_selfdestructs(nodes@, node, idx as int + 1)));
                }
            }
        }
        idx += 1;
    }
    call_frames
}

/// Moves each frame into the frame of its parent, the last node first.
///
/// A child stands behind its parent, so when a frame is moved all its own
/// children are in it already. Each frame goes to the front of its parent's
/// calls: the children of one parent arrive last to first, and so end up in
/// the order in which they were called.
fn roll_up_call_frames(nodes: &Vec<CallTraceNode>, call_frames: Vec<CallFrame>, include_logs: bool, gas_used: u64) -> (root: CallFrame)
    requires
        well_formed(nodes@),
        nodes.len() > 0,
        call_frames@.len() == nodes@.len(),
        forall|node: int|
            0 <= node < nodes@.len() ==> (#[trigger] call_frames@[node])@ == staged_frame(
                nodes@,
                node,
                nodes@.len() as int,
                nodes@.len() as int,
                include_logs,
                gas_used,
            ),
    ensures
        root@ == call_tree_frame(nodes@, include_logs, gas_used),
{
    let mut call_frames = call_frames;
    while call_frames.len() > 1
        invariant
            well_formed(nodes@),
            1 <= call_frames@.len() <= nodes@.len(),
            forall|node: int|
                0 <= node < call_frames@.len() ==> (#[trigger] call_frames@[node])@ == staged_frame(
                    nodes@,
                    node,
                    call_frames@.len() as int,
                    nodes@.len() as int,
                    include_logs,
                    gas_used,
                ),
        decreases call_frames@.len(),
    {
        proof {
            reveal_with_fuel(<CallFrame as View>::view, 2);
        }
        let ghost staged = call_frames@;
        let call = call_frames.pop().unwrap();
        let idx = call_frames.len();
        assert(parent_precedes(nodes@, idx as int));
        let parent = nodes[idx].parent.unwrap();
        assert(call == staged[idx as int]);
        assert(call@ == node_frame(nodes@, idx as int, include_logs));
        let ghost before = call_frames@[parent as int]@;
        call_frames[parent].calls.insert(0, call);
        proof {
            assert(call_frames@[parent as int]@.calls =~= seq![call@] + before.calls);
            assert forall|node: int| 0 <= node < idx implies (#[trigger] call_frames@[node])@ == staged_frame(
                nodes@,
                node,
                idx as int,
                nodes@.len() as int,
                include_logs,
                gas_used,
            ) by {
                assert(staged[node]@ == staged_frame(
                    nodes@,
                    node,
                    idx as int + 1,
                    nodes@.len() as int,
                    include_logs,
                    gas_used,
                ));
                if node != parent {
                    assert(call_frames@[node] == staged[node]);
                }
                assert(call_frames@[node]@.calls =~= child_frames(nodes@, node, idx as int, include_logs) + (
                own_selfdestruct(nodes@, node) + child_selfdestructs(nodes@, node, nodes@.len() as int)));
            }
        }
    }
    let root = call_frames.pop().unwrap();
    root
}

impl GethTraceBuilder {
    /// The call frame of the transaction, with the gas that the transaction used.
    ///
    /// An empty call tree gives the empty frame. Otherwise the frame is that of
    /// the outermost call and shows the gas that the transaction used. Where
    /// the outermost call alone is asked for, the frame is returned as soon as
    /// it is made: its only call is the frame made up for its own
    /// self-destruct, if it ended by one. Else it holds the whole call tree.
    pub fn geth_call_traces(&self, opts: CallConfig, gas_used: u64) -> (frame: CallFrame)
        ensures
            self.nodes().len() == 0 ==> frame@ == CallFrameView::empty(),
            self.nodes().len() > 0 && opts.is_only_top_call() ==> frame@ == top_call_frame(
                self.nodes(),
                opts.is_with_log(),
                gas_used,
            ),
            self.nodes().len() > 0 && !opts.is_only_top_call() ==> frame@ == call_tree_frame(
                self.nodes(),
                opts.is_with_log(),
                gas_used,
            ),
    {
        let nodes = self.trace_nodes();
        if nodes.len() == 0 {
            return CallFrame::default();
        }
        let include_logs = opts.is_with_log();
        let root_call_frame = stage_root_frame(nodes, include_logs, gas_used);
        if opts.is_only_top_call() {
            assert(root_call_frame@.calls =~= own_selfdestruct(nodes@, 0));
            return root_call_frame;
        }
        let call_frames = stage_call_frames(nodes, root_call_frame, include_logs, gas_used);
        roll_up_call_frames(nodes, call_frames, include_logs, gas_used)
    }
}

} // verus!
