use geth_trace::call_tree::{
    is_well_formed, CallKind, CallTrace, CallTraceNode, CallTraceStep, StorageChange, TracingInspectorConfig,
};
use geth_trace::ordered_map::OrderedMap;
use geth_trace::primitives::{Address, H256, U256};
use geth_trace::struct_log::{DefaultFrame, GethDefaultTracingOptions, StructLog};
use geth_trace::GethTraceBuilder;

fn config() -> TracingInspectorConfig {
    TracingInspectorConfig {
        record_steps: true,
        record_memory_snapshots: false,
        record_stack_snapshots: false,
        record_state_diff: true,
        exclude_precompile_calls: false,
        record_logs: true,
    }
}

fn addr(n: u128) -> Address {
    Address { hi: 0, lo: n }
}

fn word(n: u128) -> H256 {
    H256 { hi: 0, lo: n }
}

fn num(n: u128) -> U256 {
    U256 { hi: 0, lo: n }
}

fn step(pc: u64, contract: Address) -> CallTraceStep {
    CallTraceStep {
        depth: 1,
        pc,
        op: 0x60,
        contract,
        gas_remaining: 1000 - pc,
        gas_cost: 3,
        storage_change: None,
        call_child: None,
    }
}

fn calling(pc: u64, contract: Address, child: usize) -> CallTraceStep {
    CallTraceStep { op: 0xf1, call_child: Some(child), ..step(pc, contract) }
}

fn writing(pc: u64, contract: Address, key: u128, value: u128) -> CallTraceStep {
    CallTraceStep {
        op: 0x55,
        storage_change: Some(StorageChange { key: num(key), value: num(value), had_value: None }),
        ..step(pc, contract)
    }
}

fn node(parent: Option<usize>, address: Address, output: Vec<u8>, steps: Vec<CallTraceStep>) -> CallTraceNode {
    CallTraceNode {
        parent,
        trace: CallTrace {
            kind: CallKind::Call,
            caller: addr(1),
            address,
            value: num(0),
            data: vec![],
            output,
            success: true,
            error: None,
            gas_used: 100,
            gas_limit: 1000,
            selfdestruct_refund_target: None,
            steps,
        },
        logs: vec![],
    }
}

fn builder(nodes: Vec<CallTraceNode>) -> GethTraceBuilder {
    assert!(is_well_formed(&nodes));
    GethTraceBuilder::new(nodes, config())
}

fn all_off() -> GethDefaultTracingOptions {
    GethDefaultTracingOptions {
        enable_memory: None,
        disable_stack: None,
        disable_storage: Some(true),
        enable_return_data: None,
    }
}

fn defaults() -> GethDefaultTracingOptions {
    GethDefaultTracingOptions { enable_memory: None, disable_stack: None, disable_storage: None, enable_return_data: None }
}

fn pcs(frame: &DefaultFrame) -> Vec<u64> {
    frame.struct_logs.iter().map(|log| log.pc).collect()
}

#[test]
fn empty_call_tree_gives_the_empty_step_log() {
    let frame = builder(vec![]).geth_traces(21000, vec![1, 2, 3], defaults());
    assert_eq!(frame, DefaultFrame { failed: false, gas: 0, return_value: vec![], struct_logs: vec![] });
    assert_eq!(frame, DefaultFrame::default());
}

#[test]
fn single_root_with_two_steps() {
    let root = node(None, addr(2), vec![], vec![step(0, addr(2)), step(2, addr(2))]);
    let frame = builder(vec![root]).geth_traces(21000, vec![], all_off());
    assert!(!frame.failed);
    assert_eq!(frame.gas, 21000);
    assert_eq!(frame.return_value, Vec::<u8>::new());
    assert_eq!(frame.struct_logs.len(), 2);
    assert_eq!(
        frame.struct_logs[0],
        StructLog {
            pc: 0,
            op: 0x60,
            op_name: Some("PUSH1".to_string()),
            gas: 1000,
            gas_cost: 3,
            depth: 1,
            storage: None,
            return_data: None,
        }
    );
    assert_eq!(frame.struct_logs[1].pc, 2);
    assert_eq!(frame.struct_logs[1].gas, 998);
}

#[test]
fn child_steps_stand_behind_the_call() {
    let root = node(None, addr(2), vec![], vec![step(0, addr(2)), calling(1, addr(2), 1), step(2, addr(2))]);
    let child = node(Some(0), addr(3), vec![], vec![step(100, addr(3)), step(101, addr(3))]);
    let frame = builder(vec![root, child]).geth_traces(50000, vec![], all_off());
    assert_eq!(pcs(&frame), vec![0, 1, 100, 101, 2]);
}

#[test]
fn steps_interleave_at_every_depth() {
    // root: 0, call 1, 2, call 3, 4; node 1: 10, call 2, 12; node 2: 20, 21; node 3: 30
    let root = node(
        None,
        addr(2),
        vec![],
        vec![step(0, addr(2)), calling(1, addr(2), 1), step(2, addr(2)), calling(3, addr(2), 3), step(4, addr(2))],
    );
    let first = node(Some(0), addr(3), vec![], vec![step(10, addr(3)), calling(11, addr(3), 2), step(12, addr(3))]);
    let inner = node(Some(1), addr(4), vec![], vec![step(20, addr(4)), step(21, addr(4))]);
    let second = node(Some(0), addr(5), vec![], vec![step(30, addr(5))]);
    let frame = builder(vec![root, first, inner, second]).geth_traces(1, vec![], all_off());
    assert_eq!(pcs(&frame), vec![0, 1, 10, 11, 20, 21, 12, 2, 3, 30, 4]);
}

#[test]
fn call_as_last_step_and_child_without_steps() {
    let root = node(None, addr(2), vec![], vec![calling(0, addr(2), 1), calling(1, addr(2), 2)]);
    let silent = node(Some(0), addr(3), vec![], vec![]);
    let last = node(Some(0), addr(4), vec![], vec![step(40, addr(4))]);
    let frame = builder(vec![root, silent, last]).geth_traces(1, vec![], all_off());
    assert_eq!(pcs(&frame), vec![0, 1, 40]);
}

#[test]
fn root_without_steps_gives_no_logs() {
    let root = node(None, addr(2), vec![], vec![]);
    let frame = builder(vec![root]).geth_traces(7, vec![9], defaults());
    assert_eq!(frame, DefaultFrame { failed: false, gas: 7, return_value: vec![9], struct_logs: vec![] });
}

#[test]
fn failed_follows_the_outermost_call() {
    let mut root = node(None, addr(2), vec![], vec![step(0, addr(2))]);
    root.trace.success = false;
    let mut child = node(Some(0), addr(3), vec![], vec![]);
    child.trace.success = true;
    let frame = builder(vec![root, child]).geth_traces(5, vec![0xaa], all_off());
    assert!(frame.failed);
    assert_eq!(frame.gas, 5);
    assert_eq!(frame.return_value, vec![0xaa]);

    let ok_root = node(None, addr(2), vec![], vec![calling(0, addr(2), 1)]);
    let mut failing_child = node(Some(0), addr(3), vec![], vec![]);
    failing_child.trace.success = false;
    let frame = builder(vec![ok_root, failing_child]).geth_traces(5, vec![], all_off());
    assert!(!frame.failed);
}

#[test]
fn storage_snapshots_accumulate_by_contract() {
    let a = addr(2);
    let b = addr(3);
    let root = node(
        None,
        a,
        vec![],
        vec![writing(0, a, 1, 10), calling(1, a, 1), writing(2, a, 2, 20), step(3, a), writing(4, a, 1, 11)],
    );
    let child = node(Some(0), b, vec![], vec![writing(100, b, 7, 70)]);
    let frame = builder(vec![root, child]).geth_traces(1, vec![], defaults());
    assert_eq!(pcs(&frame), vec![0, 1, 100, 2, 3, 4]);

    let mut first = OrderedMap::new();
    first.insert(word(1), word(10));
    assert_eq!(frame.struct_logs[0].storage, Some(first));
    assert_eq!(frame.struct_logs[1].storage, None);

    let mut of_b = OrderedMap::new();
    of_b.insert(word(7), word(70));
    assert_eq!(frame.struct_logs[2].storage, Some(of_b));

    let mut second = OrderedMap::new();
    second.insert(word(1), word(10));
    second.insert(word(2), word(20));
    assert_eq!(frame.struct_logs[3].storage, Some(second));
    assert_eq!(frame.struct_logs[4].storage, None);

    let mut third = OrderedMap::new();
    third.insert(word(2), word(20));
    third.insert(word(1), word(11));
    assert_eq!(frame.struct_logs[5].storage, Some(third));
}

#[test]
fn storage_is_left_out_when_disabled() {
    let a = addr(2);
    let root = node(None, a, vec![], vec![writing(0, a, 1, 10), writing(1, a, 2, 20)]);
    let frame = builder(vec![root]).geth_traces(1, vec![], all_off());
    assert_eq!(frame.struct_logs[0].storage, None);
    assert_eq!(frame.struct_logs[1].storage, None);
}

#[test]
fn return_data_is_that_of_the_call_that_ran_the_step() {
    let root = node(None, addr(2), vec![0xaa], vec![step(0, addr(2)), calling(1, addr(2), 1), step(2, addr(2))]);
    let child = node(Some(0), addr(3), vec![0xbb, 0xcc], vec![step(100, addr(3))]);
    let opts = GethDefaultTracingOptions {
        enable_memory: None,
        disable_stack: None,
        disable_storage: None,
        enable_return_data: Some(true),
    };
    let frame = builder(vec![root, child]).geth_traces(1, vec![0xff], opts);
    let data: Vec<Option<Vec<u8>>> = frame.struct_logs.iter().map(|log| log.return_data.clone()).collect();
    assert_eq!(data, vec![Some(vec![0xaa]), Some(vec![0xaa]), Some(vec![0xbb, 0xcc]), Some(vec![0xaa])]);

    let root = node(None, addr(2), vec![0xaa], vec![step(0, addr(2))]);
    let frame = builder(vec![root]).geth_traces(1, vec![], defaults());
    assert_eq!(frame.struct_logs[0].return_data, None);
}

#[test]
fn opcodes_are_named_by_the_opcode_table() {
    let a = addr(2);
    let mut undefined = step(3, a);
    undefined.op = 0x0c;
    let mut stop = step(4, a);
    stop.op = 0x00;
    let root = node(None, a, vec![], vec![step(0, a), writing(1, a, 1, 1), calling(2, a, 1), undefined, stop]);
    let child = node(Some(0), addr(3), vec![], vec![]);
    let frame = builder(vec![root, child]).geth_traces(1, vec![], all_off());
    let names: Vec<Option<String>> = frame.struct_logs.iter().map(|log| log.op_name.clone()).collect();
    assert_eq!(
        names,
        vec![
            Some("PUSH1".to_string()),
            Some("SSTORE".to_string()),
            Some("CALL".to_string()),
            None,
            Some("STOP".to_string()),
        ]
    );
    let ops: Vec<u8> = frame.struct_logs.iter().map(|log| log.op).collect();
    assert_eq!(ops, vec![0x60, 0x55, 0xf1, 0x0c, 0x00]);
}

#[test]
fn capture_flags_have_their_defaults() {
    let opts = defaults();
    assert!(opts.is_storage_enabled());
    assert!(opts.is_stack_enabled());
    assert!(!opts.is_memory_enabled());
    assert!(!opts.is_return_data_enabled());
    let opts = GethDefaultTracingOptions {
        enable_memory: Some(true),
        disable_stack: Some(true),
        disable_storage: Some(true),
        enable_return_data: Some(true),
    };
    assert!(!opts.is_storage_enabled());
    assert!(!opts.is_stack_enabled());
    assert!(opts.is_memory_enabled());
    assert!(opts.is_return_data_enabled());
    let opts = GethDefaultTracingOptions {
        enable_memory: Some(false),
        disable_stack: Some(false),
        disable_storage: Some(false),
        enable_return_data: Some(false),
    };
    assert!(opts.is_storage_enabled());
    assert!(opts.is_stack_enabled());
    assert!(!opts.is_memory_enabled());
    assert!(!opts.is_return_data_enabled());
}

#[test]
fn deep_call_chain_is_walked_without_recursion() {
    let depth: usize = 3000;
    let mut nodes = Vec::new();
    for i in 0..depth {
        let at = addr(i as u128 + 10);
        let steps = if i + 1 < depth {
            vec![calling(2 * i as u64, at, i + 1), step(2 * i as u64 + 1, at)]
        } else {
            vec![step(2 * i as u64, at)]
        };
        let parent = if i == 0 { None } else { Some(i - 1) };
        nodes.push(node(parent, at, vec![], steps));
    }
    let frame = builder(nodes).geth_traces(1, vec![], all_off());
    assert_eq!(frame.struct_logs.len(), 2 * depth - 1);
    assert_eq!(frame.struct_logs[0].pc, 0);
    assert_eq!(frame.struct_logs[depth - 1].pc, 2 * (depth as u64 - 1));
    assert_eq!(frame.struct_logs[depth].pc, 2 * (depth as u64 - 2) + 1);
    assert_eq!(frame.struct_logs[2 * depth - 2].pc, 1);
}

fn held_log() -> StructLog {
    StructLog {
        pc: 77,
        op: 0x01,
        op_name: Some("ADD".to_string()),
        gas: 1,
        gas_cost: 1,
        depth: 9,
        storage: None,
        return_data: None,
    }
}

#[test]
fn fill_adds_the_steps_of_a_node_behind_what_the_log_holds() {
    let root = node(None, addr(2), vec![], vec![step(0, addr(2)), calling(1, addr(2), 1), step(2, addr(2))]);
    let child = node(Some(0), addr(3), vec![], vec![step(100, addr(3)), calling(101, addr(3), 2)]);
    let inner = node(Some(1), addr(4), vec![], vec![step(200, addr(4))]);
    let builder = builder(vec![root, child, inner]);

    let mut logs = vec![held_log()];
    let mut storage = OrderedMap::new();
    builder.fill_geth_trace(1, &all_off(), &mut storage, &mut logs);
    assert_eq!(logs.len(), 4);
    assert_eq!(logs[0], held_log());
    let added: Vec<u64> = logs[1..].iter().map(|log| log.pc).collect();
    assert_eq!(added, vec![100, 101, 200]);
    assert_eq!(storage.len(), 0);

    builder.fill_geth_trace(0, &all_off(), &mut storage, &mut logs);
    let all: Vec<u64> = logs.iter().map(|log| log.pc).collect();
    assert_eq!(all, vec![77, 100, 101, 200, 0, 1, 100, 101, 200, 2]);

    let mut none: Vec<StructLog> = vec![held_log()];
    builder.fill_geth_trace(2, &all_off(), &mut storage, &mut none);
    assert_eq!(none.len(), 2);
    assert_eq!(none[0], held_log());
    assert_eq!(none[1].pc, 200);
}

#[test]
fn fill_goes_on_from_the_storage_table_it_is_given() {
    let a = addr(2);
    let b = addr(3);
    let root = node(None, a, vec![], vec![step(0, a), calling(1, a, 1)]);
    let child = node(Some(0), b, vec![], vec![writing(100, b, 7, 70), step(101, b)]);
    let builder = builder(vec![root, child]);

    let mut of_b = OrderedMap::new();
    of_b.insert(word(1), word(10));
    let mut storage = OrderedMap::new();
    storage.insert(b, of_b);
    let mut logs = Vec::new();
    builder.fill_geth_trace(0, &defaults(), &mut storage, &mut logs);

    let mut written = OrderedMap::new();
    written.insert(word(1), word(10));
    written.insert(word(7), word(70));
    assert_eq!(logs.len(), 4);
    assert_eq!(logs[0].storage, None);
    assert_eq!(logs[2].storage, Some(written.clone()));
    assert_eq!(logs[3].storage, None);
    // The table holds the storage of every contract that ran a step, also
    // where the contract wrote nothing.
    assert_eq!(storage.len(), 2);
    assert_eq!(storage.get(&b), Some(&written));
    assert_eq!(storage.get(&a), Some(&OrderedMap::new()));
}

#[test]
fn fill_leaves_the_storage_table_alone_when_storage_is_disabled() {
    let a = addr(2);
    let root = node(None, a, vec![], vec![writing(0, a, 1, 10)]);
    let builder = builder(vec![root]);
    let mut of_a = OrderedMap::new();
    of_a.insert(word(5), word(50));
    let mut storage = OrderedMap::new();
    storage.insert(a, of_a.clone());
    let mut logs = Vec::new();
    builder.fill_geth_trace(0, &all_off(), &mut storage, &mut logs);
    assert_eq!(logs.len(), 1);
    assert_eq!(logs[0].storage, None);
    assert_eq!(storage.len(), 1);
    assert_eq!(storage.get(&a), Some(&of_a));
}
