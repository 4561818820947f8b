//! The trace builder: it holds the call tree that the three kinds of trace are built from.

use vstd::prelude::*;
use crate::call_tree::{well_formed, CallTraceNode, TracingInspectorConfig};

verus! {

/// Builds geth-style traces from a recorded call tree.
#[derive(Debug)]
pub struct GethTraceBuilder {
    /// The recorded call nodes.
    nodes: Vec<CallTraceNode>,
    /// How the traces were recorded.
    _config: TracingInspectorConfig,
}

impl GethTraceBuilder {
    #[verifier::type_invariant]
    spec fn holds_call_tree(self) -> bool {
        well_formed(self.nodes@)
    }

    /// The call nodes that the builder holds.
    pub closed spec fn nodes(&self) -> Seq<CallTraceNode> {
        self.nodes@
    }

    /// A builder for the call tree `nodes`.
    pub fn new(nodes: Vec<CallTraceNode>, _config: TracingInspectorConfig) -> (builder: Self)
        requires
            well_formed(nodes@),
        ensures
            builder.nodes() == nodes@,
    {
        GethTraceBuilder { nodes, _config }
    }

    /// The call nodes that the builder holds. They always are a call tree.
    pub fn trace_nodes(&self) -> (nodes: &Vec<CallTraceNode>)
        ensures
            nodes@ == self.nodes(),
            well_formed(nodes@),
    {
        proof {
            use_type_invariant(self);
        }
        &self.nodes
    }
}

} // verus!
