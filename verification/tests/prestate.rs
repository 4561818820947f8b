use geth_trace::call_tree::{
    is_well_formed, CallKind, CallTrace, CallTraceNode, CallTraceStep, StorageChange, TracingInspectorConfig,
};
use geth_trace::ordered_map::OrderedMap;
use geth_trace::prestate::{
    code_hash_to_look_up, diff_traces, update_storage_from_trace, AccountChange, AccountInfo, AccountState,
    ChangeType, DiffMode, PreStateConfig, PreStateFrame,
};
use geth_trace::primitives::{Address, H256, U256};
use geth_trace::GethTraceBuilder;

fn config() -> TracingInspectorConfig {
    TracingInspectorConfig {
        record_steps: true,
        record_memory_snapshots: false,
        record_stack_snapshots: false,
        record_state_diff: true,
        exclude_precompile_calls: false,
        record_logs: false,
    }
}

fn addr(n: u128) -> Address {
    Address { hi: 0, lo: n }
}

fn word(n: u128) -> H256 {
    H256 { hi: 0, lo: n }
}

fn num(n: u128) -> U256 {
    U256 { hi: 0, lo: n }
}

fn empty_hash() -> H256 {
    H256 { hi: 0xc5d2460186f7233c927e7db2dcc703c0, lo: 0xe500b653ca82273b7bfad8045d85a470 }
}

fn info(balance: u128, nonce: u64) -> AccountInfo {
    AccountInfo { balance: num(balance), nonce, code_hash: empty_hash(), code: None }
}

fn with_code(balance: u128, nonce: u64, code: Vec<u8>) -> AccountInfo {
    AccountInfo { balance: num(balance), nonce, code_hash: word(0xc0de), code: Some(code) }
}

fn change(address: Address, before: Option<AccountInfo>, after: AccountInfo) -> AccountChange {
    AccountChange { address, before, looked_up_code: None, after, is_destroyed: false }
}

fn writing(contract: Address, key: u128, had: Option<u128>, value: u128) -> CallTraceStep {
    CallTraceStep {
        depth: 1,
        pc: 0,
        op: 0x55,
        contract,
        gas_remaining: 0,
        gas_cost: 0,
        storage_change: Some(StorageChange { key: num(key), value: num(value), had_value: had.map(num) }),
        call_child: None,
    }
}

fn plain(contract: Address) -> CallTraceStep {
    CallTraceStep {
        depth: 1,
        pc: 0,
        op: 0x01,
        contract,
        gas_remaining: 0,
        gas_cost: 0,
        storage_change: None,
        call_child: None,
    }
}

fn node(parent: Option<usize>, steps: Vec<CallTraceStep>) -> CallTraceNode {
    CallTraceNode {
        parent,
        trace: CallTrace {
            kind: CallKind::Call,
            caller: addr(1),
            address: addr(2),
            value: num(0),
            data: vec![],
            output: vec![],
            success: true,
            error: None,
            gas_used: 0,
            gas_limit: 0,
            selfdestruct_refund_target: None,
            steps,
        },
        logs: vec![],
    }
}

fn builder(nodes: Vec<CallTraceNode>) -> GethTraceBuilder {
    assert!(is_well_formed(&nodes));
    GethTraceBuilder::new(nodes, config())
}

fn prestate_mode() -> PreStateConfig {
    PreStateConfig { diff_mode: None }
}

fn diff_mode() -> PreStateConfig {
    PreStateConfig { diff_mode: Some(true) }
}

fn storage(slots: &[(u128, u128)]) -> Option<OrderedMap<H256, H256>> {
    let mut map = OrderedMap::new();
    for (key, value) in slots {
        map.insert(word(*key), word(*value));
    }
    Some(map)
}

fn state(balance: Option<u128>, nonce: Option<u64>, code: Option<Vec<u8>>, change_type: ChangeType) -> AccountState {
    AccountState { balance: balance.map(num), code, nonce, storage: None, change_type }
}

fn prestate_of(frame: PreStateFrame) -> OrderedMap<Address, AccountState> {
    match frame {
        PreStateFrame::Prestate(mode) => mode.0,
        PreStateFrame::Diff(_) => panic!("the prestate was asked for"),
    }
}

fn diff_of(frame: PreStateFrame) -> DiffMode {
    match frame {
        PreStateFrame::Diff(diff) => diff,
        PreStateFrame::Prestate(_) => panic!("the diff was asked for"),
    }
}

#[test]
fn nothing_changed_gives_empty_frames() {
    let frame = builder(vec![]).geth_prestate_traces(&vec![], prestate_mode(), empty_hash());
    assert_eq!(prestate_of(frame).len(), 0);
    let diff = diff_of(builder(vec![]).geth_prestate_traces(&vec![], diff_mode(), empty_hash()));
    assert_eq!(diff.pre.len(), 0);
    assert_eq!(diff.post.len(), 0);
    let not_diff = PreStateConfig { diff_mode: Some(false) };
    assert!(!not_diff.is_diff_mode());
    assert!(!prestate_mode().is_diff_mode());
    assert!(diff_mode().is_diff_mode());
}

#[test]
fn prestate_gives_balance_nonce_and_code_as_before() {
    let changes = vec![
        change(addr(7), Some(with_code(10, 3, vec![0x60, 0x00])), with_code(20, 4, vec![0x60, 0x00])),
        change(addr(5), Some(info(1, 0)), info(0, 1)),
        change(addr(6), None, info(9, 0)),
    ];
    let states = prestate_of(builder(vec![]).geth_prestate_traces(&changes, prestate_mode(), empty_hash()));
    assert_eq!(states.len(), 3);
    assert_eq!(states.key_at(0), addr(5));
    assert_eq!(states.key_at(1), addr(6));
    assert_eq!(states.key_at(2), addr(7));
    assert_eq!(states.get(&addr(7)), Some(&state(Some(10), Some(3), Some(vec![0x60, 0x00]), ChangeType::Modify)));
    assert_eq!(states.get(&addr(5)), Some(&state(Some(1), Some(0), None, ChangeType::Modify)));
    assert_eq!(states.get(&addr(6)), Some(&state(Some(0), Some(0), Some(vec![]), ChangeType::Modify)));
}

#[test]
fn prestate_holds_the_slots_as_they_were_before() {
    let a = addr(7);
    let b = addr(8);
    let nodes = vec![
        node(None, vec![writing(a, 1, Some(10), 11), plain(a), writing(a, 2, None, 20), writing(b, 5, Some(0), 50)]),
        node(Some(0), vec![writing(a, 3, Some(30), 0), writing(a, 1, Some(11), 12)]),
    ];
    let changes = vec![change(a, Some(info(1, 1)), info(1, 1))];
    let states = prestate_of(builder(nodes).geth_prestate_traces(&changes, prestate_mode(), empty_hash()));
    assert_eq!(states.len(), 2);
    let of_a = states.get(&a).unwrap();
    assert_eq!(of_a.balance, Some(num(1)));
    assert_eq!(of_a.storage, storage(&[(1, 11), (3, 30)]));
    let of_b = states.get(&b).unwrap();
    assert_eq!(
        *of_b,
        AccountState { balance: None, code: None, nonce: None, storage: storage(&[(5, 0)]), change_type: ChangeType::Modify }
    );
}

#[test]
fn update_storage_records_written_or_previous_values() {
    let a = addr(7);
    let nodes = vec![node(None, vec![writing(a, 1, Some(10), 11), writing(a, 2, None, 20)])];
    let mut after: OrderedMap<Address, AccountState> = OrderedMap::new();
    update_storage_from_trace(&nodes, &mut after, true);
    assert_eq!(after.get(&a).unwrap().storage, storage(&[(1, 11), (2, 20)]));
    let mut before: OrderedMap<Address, AccountState> = OrderedMap::new();
    update_storage_from_trace(&nodes, &mut before, false);
    assert_eq!(before.get(&a).unwrap().storage, storage(&[(1, 10)]));
    let mut untouched: OrderedMap<Address, AccountState> = OrderedMap::new();
    update_storage_from_trace(&vec![node(None, vec![plain(a), writing(a, 2, None, 20)])], &mut untouched, false);
    assert_eq!(untouched.len(), 0);
}

#[test]
fn nonce_change_gives_the_nonce_alone_after() {
    let a = addr(7);
    let changes = vec![change(a, Some(info(10, 0)), info(10, 1))];
    let diff = diff_of(builder(vec![]).geth_prestate_traces(&changes, diff_mode(), empty_hash()));
    assert_eq!(diff.post.len(), 1);
    assert_eq!(diff.post.get(&a), Some(&state(None, Some(1), None, ChangeType::Modify)));
    assert_eq!(diff.pre.len(), 1);
    let before = diff.pre.get(&a).unwrap();
    assert_eq!(before.nonce, Some(0));
    assert_eq!(before.code, None);
    assert_eq!(before.storage, None);
    assert_eq!(*before, state(Some(10), Some(0), None, ChangeType::Modify));
}

#[test]
fn unchanged_account_is_in_neither_side_of_the_diff() {
    let changes = vec![change(addr(7), Some(with_code(10, 1, vec![1])), with_code(10, 1, vec![1]))];
    let diff = diff_of(builder(vec![]).geth_prestate_traces(&changes, diff_mode(), empty_hash()));
    assert_eq!(diff.pre.len(), 0);
    assert_eq!(diff.post.len(), 0);
}

#[test]
fn storage_change_gives_storage_alone_after() {
    let a = addr(7);
    let nodes = vec![node(None, vec![writing(a, 1, Some(10), 11), writing(a, 2, Some(5), 0), writing(a, 3, Some(0), 7)])];
    let changes = vec![change(a, Some(with_code(10, 1, vec![1])), with_code(10, 1, vec![1]))];
    let diff = diff_of(builder(nodes).geth_prestate_traces(&changes, diff_mode(), empty_hash()));
    assert_eq!(
        diff.post.get(&a),
        Some(&AccountState {
            balance: None,
            code: None,
            nonce: None,
            storage: storage(&[(1, 11), (3, 7)]),
            change_type: ChangeType::Modify,
        })
    );
    assert_eq!(
        diff.pre.get(&a),
        Some(&AccountState {
            balance: Some(num(10)),
            code: Some(vec![1]),
            nonce: Some(1),
            storage: storage(&[(1, 10), (2, 5)]),
            change_type: ChangeType::Modify,
        })
    );
}

#[test]
fn storage_of_zeros_alone_is_not_given() {
    let a = addr(7);
    let nodes = vec![node(None, vec![writing(a, 1, Some(0), 0)])];
    let changes = vec![change(a, Some(info(10, 1)), info(11, 1))];
    let diff = diff_of(builder(nodes).geth_prestate_traces(&changes, diff_mode(), empty_hash()));
    assert_eq!(diff.pre.get(&a), Some(&state(Some(10), Some(1), None, ChangeType::Modify)));
    assert_eq!(diff.post.get(&a), Some(&state(Some(11), None, None, ChangeType::Modify)));
}

#[test]
fn created_account_is_left_out_before() {
    let a = addr(7);
    let b = addr(8);
    let zero_hash = AccountInfo { balance: num(0), nonce: 0, code_hash: H256 { hi: 0, lo: 0 }, code: None };
    let changes = vec![
        change(a, None, with_code(5, 1, vec![0xfe])),
        change(b, Some(zero_hash), info(1, 0)),
    ];
    let diff = diff_of(builder(vec![]).geth_prestate_traces(&changes, diff_mode(), empty_hash()));
    assert_eq!(diff.pre.len(), 0);
    assert_eq!(diff.post.len(), 2);
    assert_eq!(diff.post.get(&a), Some(&state(Some(5), Some(1), Some(vec![0xfe]), ChangeType::Modify)));
    assert_eq!(diff.post.get(&b), Some(&state(Some(1), None, None, ChangeType::Modify)));
}

#[test]
fn destroyed_account_is_left_out_after() {
    let a = addr(7);
    let mut destroyed = change(a, Some(with_code(5, 1, vec![0xfe])), info(0, 0));
    destroyed.is_destroyed = true;
    let diff = diff_of(builder(vec![]).geth_prestate_traces(&vec![destroyed], diff_mode(), empty_hash()));
    assert_eq!(diff.post.len(), 0);
    assert_eq!(diff.pre.get(&a), Some(&state(Some(5), Some(1), Some(vec![0xfe]), ChangeType::Modify)));
}

#[test]
fn destroyed_account_that_looks_unchanged_stays_before() {
    let a = addr(7);
    let mut destroyed = change(a, Some(info(5, 1)), info(5, 1));
    destroyed.is_destroyed = true;
    let diff = diff_of(builder(vec![]).geth_prestate_traces(&vec![destroyed], diff_mode(), empty_hash()));
    assert_eq!(diff.post.len(), 0);
    assert_eq!(diff.pre.get(&a), Some(&state(Some(5), Some(1), None, ChangeType::Modify)));
}

#[test]
fn code_before_is_looked_up_by_its_hash() {
    let a = addr(7);
    let without_code = AccountInfo { balance: num(1), nonce: 1, code_hash: word(0xc0de), code: None };
    assert_eq!(code_hash_to_look_up(&prestate_mode(), &Some(without_code), &empty_hash()), None);
    let without_code = AccountInfo { balance: num(1), nonce: 1, code_hash: word(0xc0de), code: None };
    assert_eq!(code_hash_to_look_up(&diff_mode(), &Some(without_code), &empty_hash()), Some(word(0xc0de)));
    assert_eq!(code_hash_to_look_up(&diff_mode(), &Some(info(1, 1)), &empty_hash()), None);
    assert_eq!(code_hash_to_look_up(&diff_mode(), &Some(with_code(1, 1, vec![1])), &empty_hash()), None);
    assert_eq!(code_hash_to_look_up(&diff_mode(), &None, &empty_hash()), None);

    let without_code = AccountInfo { balance: num(1), nonce: 1, code_hash: word(0xc0de), code: None };
    let mut looked_up = change(a, Some(without_code), with_code(2, 1, vec![0x60]));
    looked_up.looked_up_code = Some(vec![0x60]);
    let diff = diff_of(builder(vec![]).geth_prestate_traces(&vec![looked_up], diff_mode(), empty_hash()));
    assert_eq!(diff.pre.get(&a), Some(&state(Some(1), Some(1), Some(vec![0x60]), ChangeType::Modify)));
    assert_eq!(diff.post.get(&a), Some(&state(Some(2), None, None, ChangeType::Modify)));

    // The code that came with the account goes before code looked up, and
    // no code is looked up for the hash of empty code.
    let mut both = change(a, Some(with_code(1, 1, vec![0x01])), info(2, 1));
    both.looked_up_code = Some(vec![0x02]);
    let diff = diff_of(builder(vec![]).geth_prestate_traces(&vec![both], diff_mode(), empty_hash()));
    assert_eq!(diff.pre.get(&a).unwrap().code, Some(vec![0x01]));
    assert_eq!(diff.post.get(&a).unwrap().code, None);
    let mut plain_account = change(a, Some(info(1, 1)), info(2, 1));
    plain_account.looked_up_code = Some(vec![0x02]);
    let diff = diff_of(builder(vec![]).geth_prestate_traces(&vec![plain_account], diff_mode(), empty_hash()));
    assert_eq!(diff.pre.get(&a).unwrap().code, None);
}

#[test]
fn empty_code_is_not_given_in_the_diff() {
    let a = addr(7);
    let changes = vec![change(a, Some(with_code(1, 1, vec![])), with_code(2, 1, vec![]))];
    let diff = diff_of(builder(vec![]).geth_prestate_traces(&changes, diff_mode(), empty_hash()));
    assert_eq!(diff.pre.get(&a), Some(&state(Some(1), Some(1), None, ChangeType::Modify)));
    assert_eq!(diff.post.get(&a), Some(&state(Some(2), None, None, ChangeType::Modify)));
}

#[test]
fn account_touched_by_storage_alone_is_in_the_diff() {
    let a = addr(7);
    let nodes = vec![node(None, vec![writing(a, 1, Some(10), 11)])];
    let diff = diff_of(builder(nodes).geth_prestate_traces(&vec![], diff_mode(), empty_hash()));
    let only_storage = |slots: &[(u128, u128)]| AccountState {
        balance: None,
        code: None,
        nonce: None,
        storage: storage(slots),
        change_type: ChangeType::Modify,
    };
    assert_eq!(diff.pre.get(&a), Some(&only_storage(&[(1, 10)])));
    assert_eq!(diff.post.get(&a), Some(&only_storage(&[(1, 11)])));
}

#[test]
fn diff_traces_trims_both_sides() {
    let mut pre: OrderedMap<Address, AccountState> = OrderedMap::new();
    let mut post: OrderedMap<Address, AccountState> = OrderedMap::new();
    // changed balance
    pre.insert(addr(1), state(Some(1), Some(1), None, ChangeType::Modify));
    post.insert(addr(1), state(Some(2), Some(1), None, ChangeType::Modify));
    // created
    pre.insert(addr(2), state(Some(0), Some(0), None, ChangeType::Create));
    post.insert(addr(2), state(Some(3), Some(1), Some(vec![1]), ChangeType::Modify));
    // destroyed
    pre.insert(addr(3), state(Some(4), Some(1), Some(vec![1]), ChangeType::Modify));
    post.insert(addr(3), state(Some(0), Some(0), None, ChangeType::Destroy));
    // the same
    pre.insert(addr(4), state(Some(5), Some(1), None, ChangeType::Modify));
    post.insert(addr(4), state(Some(5), Some(1), None, ChangeType::Modify));
    // only before
    pre.insert(addr(5), state(Some(6), None, None, ChangeType::Modify));
    // only after
    post.insert(addr(6), state(Some(7), Some(2), None, ChangeType::Modify));
    let diff = diff_traces(&pre, &post);
    assert_eq!(diff.pre.len(), 3);
    assert_eq!(diff.pre.get(&addr(1)), Some(&state(Some(1), Some(1), None, ChangeType::Modify)));
    assert_eq!(diff.pre.get(&addr(3)), Some(&state(Some(4), Some(1), Some(vec![1]), ChangeType::Modify)));
    assert_eq!(diff.pre.get(&addr(5)), Some(&state(Some(6), None, None, ChangeType::Modify)));
    assert_eq!(diff.post.len(), 3);
    assert_eq!(diff.post.get(&addr(1)), Some(&state(Some(2), None, None, ChangeType::Modify)));
    assert_eq!(diff.post.get(&addr(2)), Some(&state(Some(3), Some(1), Some(vec![1]), ChangeType::Modify)));
    assert_eq!(diff.post.get(&addr(6)), Some(&state(Some(7), Some(2), None, ChangeType::Modify)));
}

#[test]
fn a_later_change_of_an_address_replaces_an_earlier_one() {
    let a = addr(7);
    let changes = vec![change(a, Some(info(1, 1)), info(2, 1)), change(a, Some(info(3, 1)), info(4, 1))];
    let states = prestate_of(builder(vec![]).geth_prestate_traces(&changes, prestate_mode(), empty_hash()));
    assert_eq!(states.len(), 1);
    assert_eq!(states.get(&a).unwrap().balance, Some(num(3)));
}

#[test]
fn account_states_compare_by_all_fields() {
    let a = state(Some(1), Some(1), Some(vec![1, 2]), ChangeType::Modify);
    assert!(a.same_as(&a.clone()));
    assert!(!a.same_as(&state(Some(2), Some(1), Some(vec![1, 2]), ChangeType::Modify)));
    assert!(!a.same_as(&state(Some(1), Some(2), Some(vec![1, 2]), ChangeType::Modify)));
    assert!(!a.same_as(&state(Some(1), Some(1), Some(vec![1, 3]), ChangeType::Modify)));
    assert!(!a.same_as(&state(Some(1), Some(1), Some(vec![1]), ChangeType::Modify)));
    assert!(!a.same_as(&state(Some(1), Some(1), None, ChangeType::Modify)));
    assert!(!a.same_as(&state(Some(1), Some(1), Some(vec![1, 2]), ChangeType::Create)));
    assert!(!a.same_as(&state(None, Some(1), Some(vec![1, 2]), ChangeType::Modify)));
    let mut with_storage = a.clone();
    with_storage.storage = storage(&[(1, 1)]);
    assert!(!a.same_as(&with_storage));
    assert!(with_storage.same_as(&with_storage.clone()));
    let mut empty_storage = a.clone();
    empty_storage.storage = storage(&[]);
    assert!(!a.same_as(&empty_storage));
    assert_eq!(AccountState::default(), state(None, None, None, ChangeType::Modify));
}

#[test]
fn empty_accounts_are_told_by_balance_nonce_and_code_hash() {
    assert!(info(0, 0).is_empty(&empty_hash()));
    assert!(!info(1, 0).is_empty(&empty_hash()));
    assert!(!info(0, 1).is_empty(&empty_hash()));
    assert!(!with_code(0, 0, vec![1]).is_empty(&empty_hash()));
    let zero_hash = AccountInfo { balance: num(0), nonce: 0, code_hash: H256 { hi: 0, lo: 0 }, code: None };
    assert!(zero_hash.is_empty(&empty_hash()));
    assert_eq!(
        AccountInfo::absent(empty_hash()),
        AccountInfo { balance: num(0), nonce: 0, code_hash: empty_hash(), code: Some(vec![]) }
    );
}
