//! The step log: one entry for each executed instruction of the whole call
//! tree, in the order in which the instructions ran.
//!
//! The steps are recorded call by call. In the log the steps of a call stand
//! right behind the step that made the call, and before the caller's next step.
//!
//! The walk keeps a table of the storage written so far, by contract. Each
//! step brings the storage of its contract into the table, and a step that
//! writes a slot gets a snapshot of that storage in its log entry.

use vstd::prelude::*;
use crate::builder::GethTraceBuilder;
use crate::call_tree::{child_follows, steps_of, well_formed, CallTraceNode, CallTraceStep};
use crate::ordered_map::OrderedMap;
use crate::primitives::{copy_bytes, Address, H256};

verus! {

/// What the step log captures besides the instructions themselves.
#[derive(Clone, Copy, Debug, PartialEq, Eq)]
pub struct GethDefaultTracingOptions {
    /// Capture memory; off unless set.
    pub enable_memory: Option<bool>,
    /// Leave the stack out; captured unless set.
    pub disable_stack: Option<bool>,
    /// Leave storage out; captured unless set.
    pub disable_storage: Option<bool>,
    /// Capture return data; off unless set.
    pub enable_return_data: Option<bool>,
}

impl GethDefaultTracingOptions {
    /// Whether storage is captured.
    pub open spec fn spec_is_storage_enabled(&self) -> bool {
        !(self.disable_storage == Some(true))
    }

    /// Whether storage is captured.
    #[verifier::when_used_as_spec(spec_is_storage_enabled)]
    pub fn is_storage_enabled(&self) -> (enabled: bool)
        ensures
            enabled == self.spec_is_storage_enabled(),
    {
        match self.disable_storage {
            Some(disabled) => !disabled,
            None => true,
        }
    }

    /// Whether return data is captured.
    pub open spec fn spec_is_return_data_enabled(&self) -> bool {
        self.enable_return_data == Some(true)
    }

    /// Whether return data is captured.
    #[verifier::when_used_as_spec(spec_is_return_data_enabled)]
    pub fn is_return_data_enabled(&self) -> (enabled: bool)
        ensures
            enabled == self.spec_is_return_data_enabled(),
    {
        match self.enable_return_data {
            Some(enabled) => enabled,
            None => false,
        }
    }

    /// Whether the stack is captured.
    pub fn is_stack_enabled(&self) -> (enabled: bool)
        ensures
            enabled == !(self.disable_stack == Some(true)),
    {
        match self.disable_stack {
            Some(disabled) => !disabled,
            None => true,
        }
    }

    /// Whether memory is captured.
    pub fn is_memory_enabled(&self) -> (enabled: bool)
        ensures
            enabled == (self.enable_memory == Some(true)),
    {
        match self.enable_memory {
            Some(enabled) => enabled,
            None => false,
        }
    }
}

/// The name that revm's table of opcodes gives to `op`; `None` where the
/// table has no opcode of that number.
pub uninterp spec fn opcode_mnemonic(op: u8) -> Option<Seq<char>>;

/// The characters of a text that may be missing.
pub open spec fn text_of(text: Option<String>) -> Option<Seq<char>> {
    match text {
        Some(text) => Some(text@),
        None => None,
    }
}

/// Looks `op` up in revm's table of opcodes, with
/// `revm::interpreter::OpCode::try_from_u8`, and takes the name of what it
/// finds, with `OpCode::as_str`.
///
/// Trusted: the name is the table's entry for `op`, and there is none exactly
/// where the table has none. The table is a constant of revm, so the same
/// opcode always has the same name.
#[verifier::external_body]
fn opcode_name(op: u8) -> (name: Option<String>)
    ensures
        text_of(name) == opcode_mnemonic(op),
{
    match revm::interpreter::OpCode::try_from_u8(op) {
        Some(code) => Some(code.as_str().to_string()),
        None => None,
    }
}

/// One entry of the step log.
#[derive(Debug, PartialEq, Eq)]
pub struct StructLog {
    /// The program counter.
    pub pc: u64,
    /// The opcode.
    pub op: u8,
    /// The name of the opcode, where it has one.
    pub op_name: Option<String>,
    /// The gas left before the instruction.
    pub gas: u64,
    /// The gas that the instruction cost.
    pub gas_cost: u64,
    /// The call depth.
    pub depth: u64,
    /// The storage of the contract as far as the transaction has written it,
    /// on an instruction that wrote to it.
    pub storage: Option<OrderedMap<H256, H256>>,
    /// What the call that ran the instruction returned in the end.
    pub return_data: Option<Vec<u8>>,
}

/// What a step log entry says.
pub struct StructLogView {
    pub pc: u64,
    pub op: u8,
    pub op_name: Option<Seq<char>>,
    pub gas: u64,
    pub gas_cost: u64,
    pub depth: u64,
    pub storage: Option<Map<H256, H256>>,
    pub return_data: Option<Seq<u8>>,
}

impl View for StructLog {
    type V = StructLogView;

    open spec fn view(&self) -> StructLogView {
        StructLogView {
            pc: self.pc,
            op: self.op,
            op_name: text_of(self.op_name),
            gas: self.gas,
            gas_cost: self.gas_cost,
            depth: self.depth,
            storage: match self.storage {
                Some(storage) => Some(storage@),
                None => None,
            },
            return_data: match self.return_data {
                Some(data) => Some(data@),
                None => None,
            },
        }
    }
}

/// The step log of a transaction with its envelope.
#[derive(Debug, PartialEq, Eq)]
pub struct DefaultFrame {
    /// Whether the transaction failed.
    pub failed: bool,
    /// The gas that the transaction used.
    pub gas: u64,
    /// What the transaction returned.
    pub return_value: Vec<u8>,
    /// The log entries, in execution order.
    pub struct_logs: Vec<StructLog>,
}

/// What a step log with its envelope says.
pub struct DefaultFrameView {
    pub failed: bool,
    pub gas: u64,
    pub return_value: Seq<u8>,
    pub struct_logs: Seq<StructLogView>,
}

impl View for DefaultFrame {
    type V = DefaultFrameView;

    open spec fn view(&self) -> DefaultFrameView {
        DefaultFrameView {
            failed: self.failed,
            gas: self.gas,
            return_value: self.return_value@,
            struct_logs: log_views(self.struct_logs@),
        }
    }
}

/// What each entry of `logs` says.
pub open spec fn log_views(logs: Seq<StructLog>) -> Seq<StructLogView> {
    Seq::new(logs.len(), |i: int| logs[i]@)
}

impl DefaultFrameView {
    /// The envelope of an empty call tree: nothing failed, nothing was used,
    /// nothing was returned and nothing was logged.
    pub open spec fn empty() -> DefaultFrameView {
        DefaultFrameView { failed: false, gas: 0, return_value: Seq::empty(), struct_logs: Seq::empty() }
    }
}

impl Default for DefaultFrame {
    /// The envelope of an empty call tree.
    fn default() -> (frame: DefaultFrame)
        ensures
            frame@ == DefaultFrameView::empty(),
    {
        let frame = DefaultFrame { failed: false, gas: 0, return_value: Vec::new(), struct_logs: Vec::new() };
        assert(frame@.struct_logs =~= Seq::empty());
        frame
    }
}

/// A step of the call tree: step `step` of node `node`.
pub struct StepRef {
    pub node: int,
    pub step: int,
}

/// The steps `lo..hi` of node `node` in execution order, each call's steps
/// standing right behind the step that made the call.
pub open spec fn order_range(nodes: Seq<CallTraceNode>, node: int, lo: int, hi: int) -> Seq<StepRef>
    decreases nodes.len() - node, hi - lo,
{
    if 0 <= node < nodes.len() && 0 <= lo < hi <= steps_of(nodes, node).len() {
        let called = match steps_of(nodes, node)[lo].call_child {
            Some(child) => if node < child < nodes.len() {
                order_range(nodes, child as int, 0, steps_of(nodes, child as int).len() as int)
            } else {
                Seq::empty()
            },
            None => Seq::empty(),
        };
        seq![StepRef { node, step: lo }] + called + order_range(nodes, node, lo + 1, hi)
    } else {
        Seq::empty()
    }
}

/// All steps of node `node` and of the calls below it, in execution order.
pub open spec fn node_order(nodes: Seq<CallTraceNode>, node: int) -> Seq<StepRef> {
    order_range(nodes, node, 0, steps_of(nodes, node).len() as int)
}

/// The step that `at` refers to.
pub open spec fn step_at(nodes: Seq<CallTraceNode>, at: StepRef) -> CallTraceStep {
    steps_of(nodes, at.node)[at.step]
}

/// What the table holds for `contract`: its storage as far as written, empty if never written.
pub open spec fn contract_storage(table: Map<Address, Map<H256, H256>>, contract: Address) -> Map<H256, H256> {
    if table.contains_key(contract) {
        table[contract]
    } else {
        Map::empty()
    }
}

/// The storage table after `step`: the table holds the storage of the
/// step's contract, empty if it held none before, and the slot that the step
/// wrote, if it wrote one, is merged into it.
pub open spec fn write_slot(table: Map<Address, Map<H256, H256>>, step: CallTraceStep) -> Map<
    Address,
    Map<H256, H256>,
> {
    table.insert(
        step.contract,
        match step.storage_change {
            Some(change) => contract_storage(table, step.contract).insert(
                H256::spec_from_u256(change.key),
                H256::spec_from_u256(change.value),
            ),
            None => contract_storage(table, step.contract),
        },
    )
}

/// The storage table after the first `count` steps of `order`, where it was `start` before them.
pub open spec fn storage_after(
    nodes: Seq<CallTraceNode>,
    order: Seq<StepRef>,
    count: int,
    start: Map<Address, Map<H256, H256>>,
) -> Map<Address, Map<H256, H256>>
    decreases count,
{
    if 0 < count <= order.len() {
        write_slot(storage_after(nodes, order, count - 1, start), step_at(nodes, order[count - 1]))
    } else {
        start
    }
}

/// What the log says of step `i` of `order`, where the storage table was
/// `start` before the first step: the step's own figures; where storage is
/// captured and the step wrote a slot, its contract's storage as far as
/// written up to and with this step; where return data is captured, what the
/// call that ran the step returned.
pub open spec fn log_at(
    nodes: Seq<CallTraceNode>,
    order: Seq<StepRef>,
    i: int,
    opts: GethDefaultTracingOptions,
    start: Map<Address, Map<H256, H256>>,
) -> StructLogView {
    let step = step_at(nodes, order[i]);
    StructLogView {
        pc: step.pc,
        op: step.op,
        op_name: opcode_mnemonic(step.op),
        gas: step.gas_remaining,
        gas_cost: step.gas_cost,
        depth: step.depth,
        storage: if opts.is_storage_enabled() && step.storage_change is Some {
            Some(contract_storage(storage_after(nodes, order, i + 1, start), step.contract))
        } else {
            None
        },
        return_data: if opts.is_return_data_enabled() {
            Some(nodes[order[i].node].trace.output@)
        } else {
            None
        },
    }
}

/// What the log says of the steps of node `node` and of the calls below it,
/// in execution order, where the storage table was `start` before them.
pub open spec fn struct_logs_from(
    nodes: Seq<CallTraceNode>,
    node: int,
    opts: GethDefaultTracingOptions,
    start: Map<Address, Map<H256, H256>>,
) -> Seq<StructLogView> {
    let order = node_order(nodes, node);
    Seq::new(order.len(), |i: int| log_at(nodes, order, i, opts, start))
}

/// What the step log of the call tree says: nothing for an empty tree, else
/// the log of the outermost call, begun with an empty storage table.
pub open spec fn struct_logs_of(nodes: Seq<CallTraceNode>, opts: GethDefaultTracingOptions) -> Seq<
    StructLogView,
> {
    if nodes.len() == 0 {
        Seq::empty()
    } else {
        struct_logs_from(nodes, 0, opts, Map::empty())
    }
}

/// The storage table that a walk leaves behind: where storage is captured,
/// the table after all steps walked; else the table as it was.
pub open spec fn storage_left(
    nodes: Seq<CallTraceNode>,
    node: int,
    opts: GethDefaultTracingOptions,
    start: Map<Address, Map<H256, H256>>,
) -> Map<Address, Map<H256, H256>> {
    if opts.is_storage_enabled() {
        storage_after(nodes, node_order(nodes, node), node_order(nodes, node).len() as int, start)
    } else {
        start
    }
}

/// A range of steps is the steps up to any place in it, then the steps from there on.
pub proof fn lemma_order_range_split(nodes: Seq<CallTraceNode>, node: int, lo: int, mid: int, hi: int)
    requires
        0 <= node < nodes.len(),
        0 <= lo <= mid <= hi <= steps_of(nodes, node).len(),
    ensures
        order_range(nodes, node, lo, hi) == order_range(nodes, node, lo, mid) + order_range(
            nodes,
            node,
            mid,
            hi,
        ),
    decreases mid - lo,
{
    if lo == mid {
        assert(order_range(nodes, node, lo, mid) =~= Seq::empty());
        assert(order_range(nodes, node, lo, hi) =~= order_range(nodes, node, lo, mid) + order_range(
            nodes,
            node,
            mid,
            hi,
        ));
    } else {
        lemma_order_range_split(nodes, node, lo + 1, mid, hi);
        assert(order_range(nodes, node, lo, hi) =~= order_range(nodes, node, lo, mid) + order_range(
            nodes,
            node,
            mid,
            hi,
        ));
    }
}

/// Where step `step` of node `caller` made the call `child`, the caller's
/// steps up to `step` come first, then that step, then all steps of the call
/// with the calls below it, then the caller's remaining steps.
pub proof fn lemma_called_steps_follow_call(nodes: Seq<CallTraceNode>, caller: int, step: int, child: usize)
    requires
        well_formed(nodes),
        0 <= caller < nodes.len(),
        0 <= step < steps_of(nodes, caller).len(),
        steps_of(nodes, caller)[step].call_child == Some(child),
    ensures
        node_order(nodes, caller) == order_range(nodes, caller, 0, step) + seq![
            StepRef { node: caller, step },
        ] + node_order(nodes, child as int) + order_range(
            nodes,
            caller,
            step + 1,
            steps_of(nodes, caller).len() as int,
        ),
{
    let len = steps_of(nodes, caller).len() as int;
    assert(child_follows(nodes, caller, step));
    lemma_order_range_split(nodes, caller, 0, step, len);
    assert(order_range(nodes, caller, step, len) =~= seq![StepRef { node: caller, step }] + node_order(
        nodes,
        child as int,
    ) + order_range(nodes, caller, step + 1, len));
    assert(node_order(nodes, caller) =~= order_range(nodes, caller, 0, step) + seq![
        StepRef { node: caller, step },
    ] + node_order(nodes, child as int) + order_range(nodes, caller, step + 1, len));
}

/// A step that waits on the work list, as node and step index.
pub type Pending = (usize, usize);

/// The steps that one waiting step stands for: itself, then the call it made.
pub open spec fn item_order(nodes: Seq<CallTraceNode>, item: Pending) -> Seq<StepRef> {
    order_range(nodes, item.0 as int, item.1 as int, item.1 as int + 1)
}

/// Whether a waiting step names a step of the call tree.
pub open spec fn item_in_tree(nodes: Seq<CallTraceNode>, item: Pending) -> bool {
    item.0 < nodes.len() && item.1 < steps_of(nodes, item.0 as int).len()
}

/// The steps still to be logged, in execution order: those of the last
/// waiting step first.
pub open spec fn pending_order(nodes: Seq<CallTraceNode>, stack: Seq<Pending>) -> Seq<StepRef>
    decreases stack.len(),
{
    if stack.len() == 0 {
        Seq::empty()
    } else {
        item_order(nodes, stack.last()) + pending_order(nodes, stack.drop_last())
    }
}

/// Puts the steps of node `node` on the work list, the last step first, so
/// that the first step is drawn next.
fn push_steps_on_stack(nodes: &Vec<CallTraceNode>, node: usize, stack: &mut Vec<Pending>)
    requires
        node < nodes.len(),
        forall|i: int| 0 <= i < old(stack)@.len() ==> item_in_tree(nodes@, #[trigger] old(stack)@[i]),
    ensures
        pending_order(nodes@, final(stack)@) == node_order(nodes@, node as int) + pending_order(
            nodes@,
            old(stack)@,
        ),
        forall|i: int| 0 <= i < final(stack)@.len() ==> item_in_tree(nodes@, #[trigger] final(stack)@[i]),
{
    let count = nodes[node].trace.steps.len();
    let mut at: usize = count;
    let ghost before = stack@;
    assert(order_range(nodes@, node as int, count as int, count as int) + pending_order(nodes@, before)
        =~= pending_order(nodes@, before));
    while at > 0
        invariant
            node < nodes.len(),
            count == steps_of(nodes@, node as int).len(),
            at <= count,
            pending_order(nodes@, stack@) == order_range(nodes@, node as int, at as int, count as int)
                + pending_order(nodes@, before),
            forall|i: int| 0 <= i < stack@.len() ==> item_in_tree(nodes@, #[trigger] stack@[i]),
        decreases at,
    {
        at -= 1;
        let ghost below = stack@;
        stack.push((node, at));
        proof {
            assert(stack@.drop_last() =~= below);
            lemma_order_range_split(nodes@, node as int, at as int, at as int + 1, count as int);
            assert(pending_order(nodes@, stack@) =~= order_range(
                nodes@,
                node as int,
                at as int,
                count as int,
            ) + pending_order(nodes@, before));
        }
    }
}

/// The log entry of a step with nothing captured yet.
fn convert_to_geth_struct_log(step: &CallTraceStep) -> (log: StructLog)
    ensures
        log.pc == step.pc,
        log.op == step.op,
        text_of(log.op_name) == opcode_mnemonic(step.op),
        log.gas == step.gas_remaining,
        log.gas_cost == step.gas_cost,
        log.depth == step.depth,
        log.storage is None,
        log.return_data is None,
{
    StructLog {
        pc: step.pc,
        op: step.op,
        op_name: opcode_name(step.op),
        gas: step.gas_remaining,
        gas_cost: step.gas_cost,
        depth: step.depth,
        storage: None,
        return_data: None,
    }
}

/// What a storage table says: for each contract written to, its storage as far as written.
pub open spec fn table_view(table: OrderedMap<Address, OrderedMap<H256, H256>>) -> Map<
    Address,
    Map<H256, H256>,
> {
    Map::new(|contract: Address| table@.contains_key(contract), |contract: Address| table@[contract]@)
}

/// Takes the step into the storage table: the table gets the storage of the
/// step's contract, and the slot that the step wrote, if it wrote one, is
/// merged into it. Returns a snapshot of that storage if the step wrote a slot.
fn record_step(
    table: &mut OrderedMap<Address, OrderedMap<H256, H256>>,
    step: &CallTraceStep,
) -> (snapshot: Option<OrderedMap<H256, H256>>)
    ensures
        table_view(*final(table)) == write_slot(table_view(*old(table)), *step),
        match snapshot {
            Some(storage) => step.storage_change is Some && storage@ == contract_storage(
                table_view(*final(table)),
                step.contract,
            ),
            None => step.storage_change is None,
        },
{
    let mut of_contract = match table.remove(&step.contract) {
        Some(storage) => storage,
        None => OrderedMap::new(),
    };
    assert(of_contract@ == contract_storage(table_view(*old(table)), step.contract));
    let snapshot = match step.storage_change {
        Some(change) => {
            of_contract.insert(H256::from_u256(change.key), H256::from_u256(change.value));
            Some(of_contract.clone())
        },
        None => None,
    };
    table.insert(step.contract, of_contract);
    assert(table_view(*table) =~~= write_slot(table_view(*old(table)), *step));
    snapshot
}

impl GethTraceBuilder {
    /// Adds to the step log all steps of node `main_trace_node` and of the
    /// calls below it, in execution order.
    ///
    /// The steps wait on a work list. Drawing a step logs it and puts the
    /// steps of the call it made on the list, so that they are drawn before
    /// the caller's next step. What the log held before stays as it was.
    /// Where storage is captured, `storage` is the running table of the
    /// storage written, by contract.
    pub fn fill_geth_trace(
        &self,
        main_trace_node: usize,
        opts: &GethDefaultTracingOptions,
        storage: &mut OrderedMap<Address, OrderedMap<H256, H256>>,
        struct_logs: &mut Vec<StructLog>,
    )
        requires
            main_trace_node < self.nodes().len(),
        ensures
            final(struct_logs)@.len() == old(struct_logs)@.len() + node_order(
                self.nodes(),
                main_trace_node as int,
            ).len(),
            final(struct_logs)@.subrange(0, old(struct_logs)@.len() as int) == old(struct_logs)@,
            log_views(
                final(struct_logs)@.subrange(old(struct_logs)@.len() as int, final(struct_logs)@.len() as int),
            ) == struct_logs_from(self.nodes(), main_trace_node as int, *opts, table_view(*old(storage))),
            table_view(*final(storage)) == storage_left(
                self.nodes(),
                main_trace_node as int,
                *opts,
                table_view(*old(storage)),
            ),
    {
        let nodes = self.trace_nodes();
        let ghost order = node_order(nodes@, main_trace_node as int);
        let ghost start = table_view(*storage);
        let ghost held = struct_logs@;
        let mut step_stack: Vec<Pending> = Vec::new();
        push_steps_on_stack(nodes, main_trace_node, &mut step_stack);
        assert(pending_order(nodes@, step_stack@) =~= order.subrange(0, order.len() as int));
        assert(struct_logs@.subrange(0, held.len() as int) =~= held);
        while step_stack.len() > 0
            invariant
                well_formed(nodes@),
                order == node_order(nodes@, main_trace_node as int),
                held.len() <= struct_logs@.len() <= held.len() + order.len(),
                struct_logs@.subrange(0, held.len() as int) == held,
                pending_order(nodes@, step_stack@) == order.subrange(
                    struct_logs@.len() - held.len(),
                    order.len() as int,
                ),
                forall|i: int| 0 <= i < step_stack@.len() ==> item_in_tree(nodes@, #[trigger] step_stack@[i]),
                forall|i: int|
                    held.len() <= i < struct_logs@.len() ==> (#[trigger] struct_logs@[i])@ == log_at(
                        nodes@,
                        order,
                        i - held.len(),
                        *opts,
                        start,
                    ),
                opts.is_storage_enabled() ==> table_view(*storage) == storage_after(
                    nodes@,
                    order,
                    struct_logs@.len() - held.len(),
                    start,
                ),
                !opts.is_storage_enabled() ==> table_view(*storage) == start,
            decreases pending_order(nodes@, step_stack@).len(),
        {
            let ghost done = struct_logs@.len() - held.len();
            let ghost waiting = step_stack@;
            let ghost logged = struct_logs@;
            let item = step_stack.pop().unwrap();
            let node_idx = item.0;
            let step_idx = item.1;
            assert(item_in_tree(nodes@, waiting[waiting.len() - 1]));
            let trace_node = &nodes[node_idx];
            let step = &trace_node.trace.steps[step_idx];
            proof {
                assert(step_stack@ =~= waiting.drop_last());
                assert(child_follows(nodes@, node_idx as int, step_idx as int));
                // The step drawn is the next step of the execution order.
                let rest = pending_order(nodes@, step_stack@);
                let drawn = item_order(nodes@, item);
                assert(pending_order(nodes@, waiting) == drawn + rest);
                assert(drawn[0] == StepRef { node: node_idx as int, step: step_idx as int });
                assert((drawn + rest)[0] == drawn[0]);
                assert(order[done] == order.subrange(done, order.len() as int)[0]);
                assert(step_at(nodes@, order[done]) == *step);
            }
            let mut log = convert_to_geth_struct_log(step);
            if opts.is_storage_enabled() {
                log.storage = record_step(storage, step);
                assert(table_view(*storage) == storage_after(nodes@, order, done + 1, start));
            }
            if opts.is_return_data_enabled() {
                log.return_data = Some(copy_bytes(&trace_node.trace.output));
            }
            assert(log@ == log_at(nodes@, order, done, *opts, start));
            struct_logs.push(log);
            match step.call_child {
                Some(child) => {
                    push_steps_on_stack(nodes, child, &mut step_stack);
                },
                None => {},
            }
            proof {
                let rest = pending_order(nodes@, waiting.drop_last());
                let drawn = item_order(nodes@, item);
                assert(order_range(nodes@, node_idx as int, step_idx as int + 1, step_idx as int + 1)
                    =~= Seq::empty());
                assert(drawn.subrange(1, drawn.len() as int) + rest =~= pending_order(nodes@, step_stack@));
                assert(order.subrange(done + 1, order.len() as int) =~= (drawn + rest).subrange(
                    1,
                    (drawn + rest).len() as int,
                ));
                assert((drawn + rest).subrange(1, (drawn + rest).len() as int) =~= drawn.subrange(
                    1,
                    drawn.len() as int,
                ) + rest);
                assert(struct_logs@.subrange(0, held.len() as int) =~= logged.subrange(0, held.len() as int));
                assert forall|i: int| held.len() <= i < struct_logs@.len() implies (#[trigger] struct_logs@[i])@
                    == log_at(nodes@, order, i - held.len(), *opts, start) by {
                    if i < logged.len() {
                        assert(struct_logs@[i] == logged[i]);
                    }
                }
            }
        }
        proof {
            assert(pending_order(nodes@, step_stack@) =~= Seq::empty());
            assert(struct_logs@.len() == held.len() + order.len());
            assert(log_views(struct_logs@.subrange(held.len() as int, struct_logs@.len() as int))
                =~= struct_logs_from(nodes@, main_trace_node as int, *opts, start));
        }
    }

    /// The step log of the transaction, with the gas used and the value
    /// returned that the execution result gave.
    ///
    /// An empty call tree gives the empty envelope. Otherwise the transaction
    /// failed exactly if the outermost call did not succeed, and the log holds
    /// one entry for each step of the call tree, in execution order.
    pub fn geth_traces(&self, receipt_gas_used: u64, return_value: Vec<u8>, opts: GethDefaultTracingOptions) -> (frame: DefaultFrame)
        ensures
            self.nodes().len() == 0 ==> frame@ == DefaultFrameView::empty(),
            self.nodes().len() > 0 ==> frame@ == (DefaultFrameView {
                failed: !self.nodes()[0].trace.success,
                gas: receipt_gas_used,
                return_value: return_value@,
                struct_logs: struct_logs_of(self.nodes(), opts),
            }),
    {
        let nodes = self.trace_nodes();
        if nodes.len() == 0 {
            return DefaultFrame::default();
        }
        let main_trace = &nodes[0].trace;
        let mut struct_logs: Vec<StructLog> = Vec::new();
        let mut storage: OrderedMap<Address, OrderedMap<H256, H256>> = OrderedMap::new();
        assert(table_view(storage) =~~= Map::<Address, Map<H256, H256>>::empty());
        self.fill_geth_trace(0, &opts, &mut storage, &mut struct_logs);
        assert(struct_logs@.subrange(0, struct_logs@.len() as int) =~= struct_logs@);
        DefaultFrame { failed: !main_trace.success, gas: receipt_gas_used, return_value, struct_logs }
    }
}

} // verus!
