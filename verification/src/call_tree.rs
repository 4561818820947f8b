//! The recorded call tree of one transaction: an arena of call nodes, each
//! with its call's metadata and the steps that the call executed.
//!
//! Node 0 is the outermost call. Every other node names its parent by index,
//! and a parent always stands before its children.

use vstd::prelude::*;
use crate::primitives::{Address, H256, U256};

verus! {

/// The kind of a call.
#[derive(Clone, Copy, Debug, PartialEq, Eq, Structural)]
pub enum CallKind {
    Call,
    StaticCall,
    CallCode,
    DelegateCall,
    Create,
    Create2,
}

impl CallKind {
    /// The name of the kind as call frames spell it.
    pub open spec fn name(self) -> Seq<char> {
        match self {
            CallKind::Call => "CALL"@,
            CallKind::StaticCall => "STATICCALL"@,
            CallKind::CallCode => "CALLCODE"@,
            CallKind::DelegateCall => "DELEGATECALL"@,
            CallKind::Create => "CREATE"@,
            CallKind::Create2 => "CREATE2"@,
        }
    }

    /// The name of the kind as call frames spell it.
    pub fn as_str(&self) -> (name: &'static str)
        ensures
            name@ == self.name(),
    {
        match self {
            CallKind::Call => "CALL",
            CallKind::StaticCall => "STATICCALL",
            CallKind::CallCode => "CALLCODE",
            CallKind::DelegateCall => "DELEGATECALL",
            CallKind::Create => "CREATE",
            CallKind::Create2 => "CREATE2",
        }
    }
}

/// A write to one storage slot.
#[derive(Clone, Copy, Debug, PartialEq, Eq)]
pub struct StorageChange {
    /// The slot.
    pub key: U256,
    /// The value written.
    pub value: U256,
    /// The value that the slot held before the write, where it is known.
    pub had_value: Option<U256>,
}

/// One executed instruction of a call.
#[derive(Clone, Copy, Debug, PartialEq, Eq)]
pub struct CallTraceStep {
    /// The call depth at which the instruction ran.
    pub depth: u64,
    /// The program counter.
    pub pc: u64,
    /// The opcode.
    pub op: u8,
    /// The contract whose storage the instruction works on.
    pub contract: Address,
    /// The gas left before the instruction.
    pub gas_remaining: u64,
    /// The gas that the instruction cost.
    pub gas_cost: u64,
    /// The storage slot that the instruction wrote, if it wrote one.
    pub storage_change: Option<StorageChange>,
    /// The node of the call that the instruction made, if it made one.
    pub call_child: Option<usize>,
}

/// A log that a call emitted.
#[derive(Debug, PartialEq, Eq)]
pub struct RawLog {
    pub topics: Vec<H256>,
    pub data: Vec<u8>,
}

/// The metadata of a call and the steps it executed.
#[derive(Debug, PartialEq, Eq)]
pub struct CallTrace {
    /// The kind of the call.
    pub kind: CallKind,
    /// Who made the call.
    pub caller: Address,
    /// The account called or created.
    pub address: Address,
    /// The value transferred.
    pub value: U256,
    /// The input of the call.
    pub data: Vec<u8>,
    /// What the call returned.
    pub output: Vec<u8>,
    /// Whether the call succeeded.
    pub success: bool,
    /// What went wrong, for a call that failed.
    pub error: Option<String>,
    /// The gas that the call used.
    pub gas_used: u64,
    /// The gas that the call was given.
    pub gas_limit: u64,
    /// Where the balance went, for a call that ended by destroying its own account.
    pub selfdestruct_refund_target: Option<Address>,
    /// The instructions of the call itself, in the order they ran.
    pub steps: Vec<CallTraceStep>,
}

/// A node of the call tree.
#[derive(Debug, PartialEq, Eq)]
pub struct CallTraceNode {
    /// The index of the calling node; `None` for the outermost call.
    pub parent: Option<usize>,
    /// The call.
    pub trace: CallTrace,
    /// The logs that the call emitted.
    pub logs: Vec<RawLog>,
}

impl CallTraceNode {
    /// Whether the call ended by destroying its own account.
    pub open spec fn spec_is_selfdestruct(&self) -> bool {
        self.trace.selfdestruct_refund_target is Some
    }

    /// Whether the call ended by destroying its own account.
    #[verifier::when_used_as_spec(spec_is_selfdestruct)]
    pub fn is_selfdestruct(&self) -> (destroyed: bool)
        ensures
            destroyed == self.spec_is_selfdestruct(),
    {
        self.trace.selfdestruct_refund_target.is_some()
    }
}

/// How the traces were recorded.
#[derive(Clone, Copy, Debug, PartialEq, Eq)]
pub struct TracingInspectorConfig {
    pub record_steps: bool,
    pub record_memory_snapshots: bool,
    pub record_stack_snapshots: bool,
    pub record_state_diff: bool,
    pub exclude_precompile_calls: bool,
    pub record_logs: bool,
}

/// The steps of node `node`.
pub open spec fn steps_of(nodes: Seq<CallTraceNode>, node: int) -> Seq<CallTraceStep> {
    nodes[node].trace.steps@
}

/// Whether node `node` names a parent that stands before it, or is the
/// outermost call and names none.
pub open spec fn parent_precedes(nodes: Seq<CallTraceNode>, node: int) -> bool {
    match nodes[node].parent {
        Some(parent) => 0 < node && parent < node,
        None => node == 0,
    }
}

/// Whether the call that step `step` of node `node` made, if any, is a later node.
pub open spec fn child_follows(nodes: Seq<CallTraceNode>, node: int, step: int) -> bool {
    match steps_of(nodes, node)[step].call_child {
        Some(child) => node < child < nodes.len(),
        None => true,
    }
}

/// Whether `nodes` is a call tree: node 0 alone has no parent, every parent
/// stands before its children, and every call that a step names is a later node.
pub open spec fn well_formed(nodes: Seq<CallTraceNode>) -> bool {
    &&& forall|node: int| 0 <= node < nodes.len() ==> #[trigger] parent_precedes(nodes, node)
    &&& forall|node: int, step: int|
        0 <= node < nodes.len() && 0 <= step < steps_of(nodes, node).len() ==> #[trigger] child_follows(
            nodes,
            node,
            step,
        )
}

/// Checks that the parent of node `node` stands before it.
fn check_parent(nodes: &Vec<CallTraceNode>, node: usize) -> (ok: bool)
    requires
        node < nodes.len(),
    ensures
        ok == parent_precedes(nodes@, node as int),
{
    match nodes[node].parent {
        Some(parent) => 0 < node && parent < node,
        None => node == 0,
    }
}

/// Checks that every call that a step of node `node` names is a later node.
fn check_steps(nodes: &Vec<CallTraceNode>, node: usize) -> (ok: bool)
    requires
        node < nodes.len(),
    ensures
        ok == (forall|step: int|
            0 <= step < steps_of(nodes@, node as int).len() ==> #[trigger] child_follows(
                nodes@,
                node as int,
                step,
            )),
{
    let steps = &nodes[node].trace.steps;
    let mut at: usize = 0;
    while at < steps.len()
        invariant
            node < nodes.len(),
            steps@ == steps_of(nodes@, node as int),
            at <= steps.len(),
            forall|step: int| 0 <= step < at ==> #[trigger] child_follows(nodes@, node as int, step),
        decreases steps.len() - at,
    {
        let follows = match steps[at].call_child {
            Some(child) => node < child && child < nodes.len(),
            None => true,
        };
        if !follows {
            assert(!child_follows(nodes@, node as int, at as int));
            return false;
        }
        at += 1;
    }
    true
}

/// Whether `nodes` is a call tree.
pub fn is_well_formed(nodes: &Vec<CallTraceNode>) -> (ok: bool)
    ensures
        ok == well_formed(nodes@),
{
    let mut at: usize = 0;
    while at < nodes.len()
        invariant
            at <= nodes.len(),
            forall|node: int| 0 <= node < at ==> #[trigger] parent_precedes(nodes@, node),
            forall|node: int, step: int|
                0 <= node < at && 0 <= step < steps_of(nodes@, node).len() ==> #[trigger] child_follows(
                    nodes@,
                    node,
                    step,
                ),
        decreases nodes.len() - at,
    {
        if !check_parent(nodes, at) {
            assert(!parent_precedes(nodes@, at as int));
            return false;
        }
        if !check_steps(nodes, at) {
            return false;
        }
        at += 1;
    }
    true
}

} // verus!
