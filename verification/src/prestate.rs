//! The account states that a transaction needed or changed.
//!
//! The prestate gives, for each account that the transaction changed, what
//! the account was before it. The diff gives what was before and what is
//! after, cut down to what changed. Both hold, of an account's storage, the
//! slots that the transaction wrote.

use vstd::prelude::*;
use crate::builder::GethTraceBuilder;
use crate::call_tree::{steps_of, CallTraceNode, CallTraceStep, StorageChange};
use crate::ordered_map::{
    built_upto, lemma_built_all, lemma_built_step, lemma_entry_is_mapped, strictly_ascending, OrderedMap,
};
use crate::primitives::{copy_bytes, Address, H256, U256};

verus! {

/// What happened to an account.
#[derive(Clone, Copy, Debug, PartialEq, Eq, Structural)]
pub enum ChangeType {
    Modify,
    Create,
    Destroy,
}

/// What the prestate tracer is asked for.
#[derive(Clone, Copy, Debug, PartialEq, Eq)]
pub struct PreStateConfig {
    /// Give the diff instead of the prestate; off unless set.
    pub diff_mode: Option<bool>,
}

impl PreStateConfig {
    /// Whether the diff is asked for.
    pub open spec fn spec_is_diff_mode(&self) -> bool {
        self.diff_mode == Some(true)
    }

    /// Whether the diff is asked for.
    #[verifier::when_used_as_spec(spec_is_diff_mode)]
    pub fn is_diff_mode(&self) -> (diff: bool)
        ensures
            diff == self.spec_is_diff_mode(),
    {
        match self.diff_mode {
            Some(diff) => diff,
            None => false,
        }
    }
}

/// The state of an account. A field that is `None` is not given.
#[derive(Debug, PartialEq, Eq)]
pub struct AccountState {
    pub balance: Option<U256>,
    pub code: Option<Vec<u8>>,
    pub nonce: Option<u64>,
    pub storage: Option<OrderedMap<H256, H256>>,
    pub change_type: ChangeType,
}

/// What an account state says.
#[verifier::ext_equal]
pub struct AccountStateView {
    pub balance: Option<U256>,
    pub code: Option<Seq<u8>>,
    pub nonce: Option<u64>,
    pub storage: Option<Map<H256, H256>>,
    pub change_type: ChangeType,
}

impl View for AccountState {
    type V = AccountStateView;

    open spec fn view(&self) -> AccountStateView {
        AccountStateView {
            balance: self.balance,
            code: match self.code {
                Some(code) => Some(code@),
                None => None,
            },
            nonce: self.nonce,
            storage: match self.storage {
                Some(storage) => Some(storage@),
                None => None,
            },
            change_type: self.change_type,
        }
    }
}

/// The slots of `storage` whose value is not zero.
pub open spec fn nonzero_slots(storage: Map<H256, H256>) -> Map<H256, H256> {
    Map::new(|key: H256| storage.contains_key(key) && !storage[key].is_zero(), |key: H256| storage[key])
}

/// The storage with the zero-valued slots taken out; not given where none is left.
pub open spec fn nonzero_storage(storage: Option<Map<H256, H256>>) -> Option<Map<H256, H256>> {
    match storage {
        Some(slots) => if nonzero_slots(slots) == Map::<H256, H256>::empty() {
            None
        } else {
            Some(nonzero_slots(slots))
        },
        None => None,
    }
}

impl AccountStateView {
    /// The state that gives nothing.
    pub open spec fn unset() -> AccountStateView {
        AccountStateView { balance: None, code: None, nonce: None, storage: None, change_type: ChangeType::Modify }
    }

    /// The state with `value` in slot `key` of its storage.
    pub open spec fn with_slot(self, key: H256, value: H256) -> AccountStateView {
        AccountStateView {
            balance: self.balance,
            code: self.code,
            nonce: self.nonce,
            storage: Some(
                match self.storage {
                    Some(slots) => slots.insert(key, value),
                    None => Map::<H256, H256>::empty().insert(key, value),
                },
            ),
            change_type: self.change_type,
        }
    }

    /// The state without the zero-valued slots of its storage.
    pub open spec fn without_zero_slots(self) -> AccountStateView {
        AccountStateView {
            balance: self.balance,
            code: self.code,
            nonce: self.nonce,
            storage: nonzero_storage(self.storage),
            change_type: self.change_type,
        }
    }

    /// The state without the balance, the nonce and the code that `before` has too.
    pub open spec fn without_unchanged(self, before: AccountStateView) -> AccountStateView {
        AccountStateView {
            balance: if before.balance == self.balance {
                None
            } else {
                self.balance
            },
            code: if before.code == self.code {
                None
            } else {
                self.code
            },
            nonce: if before.nonce == self.nonce {
                None
            } else {
                self.nonce
            },
            storage: self.storage,
            change_type: self.change_type,
        }
    }
}

/// Whether the two byte strings are the same.
fn same_bytes(a: &Vec<u8>, b: &Vec<u8>) -> (same: bool)
    ensures
        same == (a@ == b@),
{
    if a.len() != b.len() {
        return false;
    }
    let mut at: usize = 0;
    while at < a.len()
        invariant
            a@.len() == b@.len(),
            at <= a@.len(),
            forall|i: int| 0 <= i < at ==> a@[i] == b@[i],
        decreases a@.len() - at,
    {
        if a[at] != b[at] {
            return false;
        }
        at += 1;
    }
    assert(a@ =~= b@);
    true
}

/// Whether the two codes, given or not, are the same.
fn same_code(a: &Option<Vec<u8>>, b: &Option<Vec<u8>>) -> (same: bool)
    ensures
        same == (match (*a, *b) {
            (Some(x), Some(y)) => x@ == y@,
            (None, None) => true,
            _ => false,
        }),
{
    match (a, b) {
        (Some(x), Some(y)) => same_bytes(x, y),
        (None, None) => true,
        _ => false,
    }
}

/// Whether the two storages, given or not, are the same.
fn same_storage(a: &Option<OrderedMap<H256, H256>>, b: &Option<OrderedMap<H256, H256>>) -> (same: bool)
    ensures
        same == (match (*a, *b) {
            (Some(x), Some(y)) => x@ == y@,
            (None, None) => true,
            _ => false,
        }),
{
    match (a, b) {
        (Some(x), Some(y)) => x.same_as(y),
        (None, None) => true,
        _ => false,
    }
}

/// The storage without its zero-valued slots; `None` where none is left.
fn strip_zero_slots(storage: &Option<OrderedMap<H256, H256>>) -> (kept: Option<OrderedMap<H256, H256>>)
    ensures
        (match kept {
            Some(slots) => Some(slots@),
            None => None,
        }) == nonzero_storage(
            match *storage {
                Some(slots) => Some(slots@),
                None => None,
            },
        ),
{
    match storage {
        None => None,
        Some(slots) => {
            let ghost target = nonzero_slots(slots@);
            let mut kept: OrderedMap<H256, H256> = OrderedMap::new();
            let count = slots.len();
            let mut at: usize = 0;
            while at < count
                invariant
                    count == slots.entries().len(),
                    strictly_ascending(slots.entries()),
                    target == nonzero_slots(slots@),
                    at <= count,
                    built_upto(kept@, slots.entries(), at as int, target),
                decreases count - at,
            {
                let key = slots.key_at(at);
                let value = *slots.value_at(at);
                proof {
                    lemma_built_step(kept@, slots.entries(), at as int, target);
                }
                if !value.is_zero() {
                    kept.insert(key, value);
                }
                at += 1;
            }
            proof {
                lemma_built_all(kept@, slots.entries(), target);
            }
            if kept.len() > 0 {
                proof {
                    lemma_entry_is_mapped(kept.entries(), 0);
                }
                Some(kept)
            } else {
                assert(kept@ =~= Map::<H256, H256>::empty());
                None
            }
        },
    }
}

impl Default for AccountState {
    /// The state that gives nothing.
    fn default() -> (state: AccountState)
        ensures
            state@ == AccountStateView::unset(),
    {
        AccountState { balance: None, code: None, nonce: None, storage: None, change_type: ChangeType::Modify }
    }
}

impl Clone for AccountState {
    /// A state that says the same.
    fn clone(&self) -> (copy: AccountState)
        ensures
            copy@ == self@,
    {
        AccountState {
            balance: self.balance,
            code: match &self.code {
                Some(code) => Some(copy_bytes(code)),
                None => None,
            },
            nonce: self.nonce,
            storage: match &self.storage {
                Some(storage) => Some(storage.clone()),
                None => None,
            },
            change_type: self.change_type,
        }
    }
}

impl AccountState {
    /// Whether the two states say the same.
    pub fn same_as(&self, other: &AccountState) -> (same: bool)
        ensures
            same == (self@ == other@),
    {
        let same = self.balance == other.balance && self.nonce == other.nonce && self.change_type
            == other.change_type && same_code(&self.code, &other.code) && same_storage(
            &self.storage,
            &other.storage,
        );
        proof {
            if same {
                assert(self@ =~= other@);
            }
        }
        same
    }
}

/// What is known of an account: its balance, nonce and code.
#[derive(Debug, PartialEq, Eq)]
pub struct AccountInfo {
    pub balance: U256,
    pub nonce: u64,
    /// The hash of the account's code.
    pub code_hash: H256,
    /// The account's code, where it came with the account.
    pub code: Option<Vec<u8>>,
}

/// What an account info says.
#[verifier::ext_equal]
pub struct AccountInfoView {
    pub balance: U256,
    pub nonce: u64,
    pub code_hash: H256,
    pub code: Option<Seq<u8>>,
}

impl View for AccountInfo {
    type V = AccountInfoView;

    open spec fn view(&self) -> AccountInfoView {
        AccountInfoView {
            balance: self.balance,
            nonce: self.nonce,
            code_hash: self.code_hash,
            code: match self.code {
                Some(code) => Some(code@),
                None => None,
            },
        }
    }
}

impl AccountInfoView {
    /// What is known of an account that does not exist: no balance, no nonce,
    /// and empty code, whose hash is `empty_code_hash`.
    pub open spec fn absent(empty_code_hash: H256) -> AccountInfoView {
        AccountInfoView {
            balance: U256 { hi: 0, lo: 0 },
            nonce: 0,
            code_hash: empty_code_hash,
            code: Some(Seq::empty()),
        }
    }

    /// Whether the account is empty: no balance, no nonce and no code.
    pub open spec fn is_empty(self, empty_code_hash: H256) -> bool {
        &&& self.balance == (U256 { hi: 0, lo: 0 })
        &&& self.nonce == 0
        &&& (self.code_hash == empty_code_hash || self.code_hash == (H256 { hi: 0, lo: 0 }))
    }
}

impl AccountInfo {
    /// What is known of an account that does not exist.
    pub fn absent(empty_code_hash: H256) -> (info: AccountInfo)
        ensures
            info@ == AccountInfoView::absent(empty_code_hash),
    {
        AccountInfo { balance: U256::zero(), nonce: 0, code_hash: empty_code_hash, code: Some(Vec::new()) }
    }

    /// Whether the account is empty: no balance, no nonce and no code.
    pub fn is_empty(&self, empty_code_hash: &H256) -> (empty: bool)
        ensures
            empty == self@.is_empty(*empty_code_hash),
    {
        self.balance == U256::zero() && self.nonce == 0 && (self.code_hash == *empty_code_hash
            || self.code_hash == H256::zero())
    }
}

/// One account that the transaction changed: what the state reader gave for
/// it as of before the transaction, and what the transaction left of it.
#[derive(Debug, PartialEq, Eq)]
pub struct AccountChange {
    pub address: Address,
    /// What the reader gave for the address; `None` where it knew no such account.
    pub before: Option<AccountInfo>,
    /// The code that the reader gave for the hash named by `code_to_look_up`;
    /// `None` where no code had to be asked for.
    pub looked_up_code: Option<Vec<u8>>,
    /// The account after the transaction.
    pub after: AccountInfo,
    /// Whether the transaction destroyed the account.
    pub is_destroyed: bool,
}

/// What an account change says.
#[verifier::ext_equal]
pub struct AccountChangeView {
    pub address: Address,
    pub before: Option<AccountInfoView>,
    pub looked_up_code: Option<Seq<u8>>,
    pub after: AccountInfoView,
    pub is_destroyed: bool,
}

impl View for AccountChange {
    type V = AccountChangeView;

    open spec fn view(&self) -> AccountChangeView {
        AccountChangeView {
            address: self.address,
            before: match self.before {
                Some(info) => Some(info@),
                None => None,
            },
            looked_up_code: match self.looked_up_code {
                Some(code) => Some(code@),
                None => None,
            },
            after: self.after@,
            is_destroyed: self.is_destroyed,
        }
    }
}

/// What each of `changes` says.
pub open spec fn change_views(changes: Seq<AccountChange>) -> Seq<AccountChangeView> {
    Seq::new(changes.len(), |i: int| changes[i]@)
}

/// The hash by which the code of an account has to be asked of the state
/// reader: for the diff, that of an account that came without its code and
/// whose code hash is not the hash of empty code. For the prestate no code is
/// asked for.
pub open spec fn code_to_look_up(diff_mode: bool, before: Option<AccountInfoView>, empty_code_hash: H256) -> Option<
    H256,
> {
    match before {
        Some(info) => if diff_mode && info.code is None && info.code_hash != empty_code_hash {
            Some(info.code_hash)
        } else {
            None
        },
        None => None,
    }
}

/// The code, unless it is empty.
pub open spec fn nonempty_code(code: Option<Seq<u8>>) -> Option<Seq<u8>> {
    match code {
        Some(bytes) => if bytes.len() > 0 {
            Some(bytes)
        } else {
            None
        },
        None => None,
    }
}

impl AccountChangeView {
    /// What was known of the account before the transaction.
    pub open spec fn before_info(self, empty_code_hash: H256) -> AccountInfoView {
        match self.before {
            Some(info) => info,
            None => AccountInfoView::absent(empty_code_hash),
        }
    }

    /// The code of the account before the transaction: the code that came
    /// with the account; else, where the code hash is not that of empty code,
    /// the code looked up by it. Empty code is not given.
    pub open spec fn code_before(self, empty_code_hash: H256) -> Option<Seq<u8>> {
        let info = self.before_info(empty_code_hash);
        nonempty_code(
            match info.code {
                Some(code) => Some(code),
                None => if info.code_hash == empty_code_hash {
                    None
                } else {
                    self.looked_up_code
                },
            },
        )
    }

    /// The account's entry in the prestate: balance, nonce and code as they
    /// came with the account.
    pub open spec fn prestate_entry(self, empty_code_hash: H256) -> AccountStateView {
        let info = self.before_info(empty_code_hash);
        AccountStateView {
            balance: Some(info.balance),
            code: info.code,
            nonce: Some(info.nonce),
            storage: None,
            change_type: ChangeType::Modify,
        }
    }

    /// The account before the transaction, for the diff. An account that was
    /// empty is marked as created.
    pub open spec fn diff_entry_before(self, empty_code_hash: H256) -> AccountStateView {
        let info = self.before_info(empty_code_hash);
        AccountStateView {
            balance: Some(info.balance),
            code: self.code_before(empty_code_hash),
            nonce: Some(info.nonce),
            storage: None,
            change_type: if info.is_empty(empty_code_hash) {
                ChangeType::Create
            } else {
                ChangeType::Modify
            },
        }
    }

    /// The account after the transaction, for the diff. An account that the
    /// transaction destroyed is marked so.
    pub open spec fn diff_entry_after(self) -> AccountStateView {
        AccountStateView {
            balance: Some(self.after.balance),
            code: nonempty_code(self.after.code),
            nonce: Some(self.after.nonce),
            storage: None,
            change_type: if self.is_destroyed {
                ChangeType::Destroy
            } else {
                ChangeType::Modify
            },
        }
    }
}

/// Which entry of a changed account is meant.
pub enum Side {
    /// Its entry in the prestate.
    Prestate,
    /// Its entry in the diff, as of before the transaction.
    Before,
    /// Its entry in the diff, as of after the transaction.
    After,
}

/// The entry of `change` for `side`.
pub open spec fn entry_of(change: AccountChangeView, side: Side, empty_code_hash: H256) -> AccountStateView {
    match side {
        Side::Prestate => change.prestate_entry(empty_code_hash),
        Side::Before => change.diff_entry_before(empty_code_hash),
        Side::After => change.diff_entry_after(),
    }
}

/// The entries for `side` of the first `count` changes, by address. A later
/// change of an address replaces an earlier one.
pub open spec fn entries_of(changes: Seq<AccountChangeView>, count: int, side: Side, empty_code_hash: H256) -> Map<
    Address,
    AccountStateView,
>
    decreases count,
{
    if 0 < count <= changes.len() {
        entries_of(changes, count - 1, side, empty_code_hash).insert(
            changes[count - 1].address,
            entry_of(changes[count - 1], side, empty_code_hash),
        )
    } else {
        Map::empty()
    }
}

/// The value of a written slot that is recorded: the value written, where
/// the state after is wanted; else the value that the slot held before,
/// where that is known.
pub open spec fn recorded_value(change: StorageChange, post_value: bool) -> Option<H256> {
    if post_value {
        Some(H256::spec_from_u256(change.value))
    } else {
        match change.had_value {
            Some(value) => Some(H256::spec_from_u256(value)),
            None => None,
        }
    }
}

/// The state that `states` holds for `address`; the state that gives nothing
/// where it holds none.
pub open spec fn state_of(states: Map<Address, AccountStateView>, address: Address) -> AccountStateView {
    if states.contains_key(address) {
        states[address]
    } else {
        AccountStateView::unset()
    }
}

/// The account states with the slot that `step` wrote: the recorded value
/// goes into the storage of the step's contract, whose entry is made if there
/// is none.
pub open spec fn with_step(states: Map<Address, AccountStateView>, step: CallTraceStep, post_value: bool) -> Map<
    Address,
    AccountStateView,
> {
    match step.storage_change {
        Some(change) => match recorded_value(change, post_value) {
            Some(value) => states.insert(
                step.contract,
                state_of(states, step.contract).with_slot(H256::spec_from_u256(change.key), value),
            ),
            None => states,
        },
        None => states,
    }
}

/// The account states with the slots that the first `count` of `steps` wrote.
pub open spec fn with_steps(
    states: Map<Address, AccountStateView>,
    steps: Seq<CallTraceStep>,
    count: int,
    post_value: bool,
) -> Map<Address, AccountStateView>
    decreases count,
{
    if 0 < count <= steps.len() {
        with_step(with_steps(states, steps, count - 1, post_value), steps[count - 1], post_value)
    } else {
        states
    }
}

/// The account states with the slots that the steps of the first `count` nodes wrote.
pub open spec fn with_storage_of(
    states: Map<Address, AccountStateView>,
    nodes: Seq<CallTraceNode>,
    count: int,
    post_value: bool,
) -> Map<Address, AccountStateView>
    decreases count,
{
    if 0 < count <= nodes.len() {
        with_steps(
            with_storage_of(states, nodes, count - 1, post_value),
            steps_of(nodes, count - 1),
            steps_of(nodes, count - 1).len() as int,
            post_value,
        )
    } else {
        states
    }
}

/// The diff's states as of before the transaction: each account that was not
/// created and is not the same after, without its zero-valued slots.
pub open spec fn diff_before(before: Map<Address, AccountStateView>, after: Map<Address, AccountStateView>) -> Map<
    Address,
    AccountStateView,
> {
    Map::new(
        |address: Address|
            before.contains_key(address) && before[address].change_type != ChangeType::Create
                && before[address] != state_of(after, address),
        |address: Address| before[address].without_zero_slots(),
    )
}

/// The diff's states as of after the transaction: each account that was not
/// destroyed and is not the same as before, without the balance, nonce and
/// code that did not change and without its zero-valued slots.
pub open spec fn diff_after(before: Map<Address, AccountStateView>, after: Map<Address, AccountStateView>) -> Map<
    Address,
    AccountStateView,
> {
    Map::new(
        |address: Address|
            after.contains_key(address) && after[address].change_type != ChangeType::Destroy && state_of(
                before,
                address,
            ) != after[address],
        |address: Address| after[address].without_unchanged(state_of(before, address)).without_zero_slots(),
    )
}

/// What a map of account states says.
pub open spec fn accounts_view(states: OrderedMap<Address, AccountState>) -> Map<Address, AccountStateView> {
    Map::new(|address: Address| states@.contains_key(address), |address: Address| states@[address]@)
}

/// The prestate: the state before the transaction of each account that it changed.
#[derive(Debug, PartialEq, Eq)]
pub struct PreStateMode(pub OrderedMap<Address, AccountState>);

/// The diff: the states before and after the transaction of the accounts that it changed.
#[derive(Debug, PartialEq, Eq)]
pub struct DiffMode {
    pub pre: OrderedMap<Address, AccountState>,
    pub post: OrderedMap<Address, AccountState>,
}

/// What the prestate tracer gives.
#[derive(Debug, PartialEq, Eq)]
pub enum PreStateFrame {
    Prestate(PreStateMode),
    Diff(DiffMode),
}

/// What a prestate frame says.
#[verifier::ext_equal]
pub enum PreStateFrameView {
    Prestate(Map<Address, AccountStateView>),
    Diff { pre: Map<Address, AccountStateView>, post: Map<Address, AccountStateView> },
}

impl View for PreStateFrame {
    type V = PreStateFrameView;

    open spec fn view(&self) -> PreStateFrameView {
        match self {
            PreStateFrame::Prestate(mode) => PreStateFrameView::Prestate(accounts_view(mode.0)),
            PreStateFrame::Diff(diff) => PreStateFrameView::Diff {
                pre: accounts_view(diff.pre),
                post: accounts_view(diff.post),
            },
        }
    }
}

/// What the prestate tracer gives for a call tree and the accounts changed.
pub open spec fn prestate_frame(
    nodes: Seq<CallTraceNode>,
    changes: Seq<AccountChangeView>,
    diff_mode: bool,
    empty_code_hash: H256,
) -> PreStateFrameView {
    let all = changes.len() as int;
    let traced = nodes.len() as int;
    if diff_mode {
        let before = with_storage_of(entries_of(changes, all, Side::Before, empty_code_hash), nodes, traced, false);
        let after = with_storage_of(entries_of(changes, all, Side::After, empty_code_hash), nodes, traced, true);
        PreStateFrameView::Diff { pre: diff_before(before, after), post: diff_after(before, after) }
    } else {
        PreStateFrameView::Prestate(
            with_storage_of(entries_of(changes, all, Side::Prestate, empty_code_hash), nodes, traced, false),
        )
    }
}

/// The hash by which the code of the account has to be asked of the state
/// reader, if it has to be asked.
pub fn code_hash_to_look_up(
    prestate_config: &PreStateConfig,
    before: &Option<AccountInfo>,
    empty_code_hash: &H256,
) -> (hash: Option<H256>)
    ensures
        hash == code_to_look_up(
            prestate_config.is_diff_mode(),
            match *before {
                Some(info) => Some(info@),
                None => None,
            },
            *empty_code_hash,
        ),
{
    match before {
        Some(info) => {
            if prestate_config.is_diff_mode() && info.code.is_none() && !(info.code_hash == *empty_code_hash) {
                Some(info.code_hash)
            } else {
                None
            }
        },
        None => None,
    }
}

/// The code, unless it is empty.
fn copy_nonempty_code(code: &Option<Vec<u8>>) -> (kept: Option<Vec<u8>>)
    ensures
        (match kept {
            Some(bytes) => Some(bytes@),
            None => None,
        }) == nonempty_code(
            match *code {
                Some(bytes) => Some(bytes@),
                None => None,
            },
        ),
{
    match code {
        Some(bytes) => {
            if bytes.len() > 0 {
                Some(copy_bytes(bytes))
            } else {
                None
            }
        },
        None => None,
    }
}

impl AccountChange {
    /// The account's entry in the prestate.
    fn prestate_entry(&self, empty_code_hash: &H256) -> (state: AccountState)
        ensures
            state@ == self@.prestate_entry(*empty_code_hash),
    {
        match &self.before {
            Some(info) => AccountState {
                balance: Some(info.balance),
                code: match &info.code {
                    Some(code) => Some(copy_bytes(code)),
                    None => None,
                },
                nonce: Some(info.nonce),
                storage: None,
                change_type: ChangeType::Modify,
            },
            None => AccountState {
                balance: Some(U256::zero()),
                code: Some(Vec::new()),
                nonce: Some(0),
                storage: None,
                change_type: ChangeType::Modify,
            },
        }
    }

    /// The account before the transaction, for the diff.
    fn diff_entry_before(&self, empty_code_hash: &H256) -> (state: AccountState)
        ensures
            state@ == self@.diff_entry_before(*empty_code_hash),
    {
        match &self.before {
            Some(info) => {
                let code = match &info.code {
                    Some(code) => copy_nonempty_code(&info.code),
                    None => {
                        if info.code_hash == *empty_code_hash {
                            None
                        } else {
                            copy_nonempty_code(&self.looked_up_code)
                        }
                    },
                };
                AccountState {
                    balance: Some(info.balance),
                    code,
                    nonce: Some(info.nonce),
                    storage: None,
                    change_type: if info.is_empty(empty_code_hash) {
                        ChangeType::Create
                    } else {
                        ChangeType::Modify
                    },
                }
            },
            None => AccountState {
                balance: Some(U256::zero()),
                code: None,
                nonce: Some(0),
                storage: None,
                change_type: ChangeType::Create,
            },
        }
    }

    /// The account after the transaction, for the diff.
    fn diff_entry_after(&self) -> (state: AccountState)
        ensures
            state@ == self@.diff_entry_after(),
    {
        AccountState {
            balance: Some(self.after.balance),
            code: copy_nonempty_code(&self.after.code),
            nonce: Some(self.after.nonce),
            storage: None,
            change_type: if self.is_destroyed {
                ChangeType::Destroy
            } else {
                ChangeType::Modify
            },
        }
    }
}

/// The entries for the prestate of all `changes`, by address.
fn collect_prestate(changes: &Vec<AccountChange>, empty_code_hash: &H256) -> (states: OrderedMap<
    Address,
    AccountState,
>)
    ensures
        accounts_view(states) == entries_of(
            change_views(changes@),
            changes@.len() as int,
            Side::Prestate,
            *empty_code_hash,
        ),
{
    let mut states: OrderedMap<Address, AccountState> = OrderedMap::new();
    let mut at: usize = 0;
    assert(accounts_view(states) =~= entries_of(change_views(changes@), 0, Side::Prestate, *empty_code_hash));
    while at < changes.len()
        invariant
            at <= changes@.len(),
            accounts_view(states) == entries_of(change_views(changes@), at as int, Side::Prestate, *empty_code_hash),
        decreases changes@.len() - at,
    {
        let change = &changes[at];
        states.insert(change.address, change.prestate_entry(empty_code_hash));
        assert(accounts_view(states) =~= entries_of(
            change_views(changes@),
            at as int + 1,
            Side::Prestate,
            *empty_code_hash,
        ));
        at += 1;
    }
    states
}

/// The entries for the diff of all `changes`, by address: those as of before
/// the transaction and those as of after it.
fn collect_diff(changes: &Vec<AccountChange>, empty_code_hash: &H256) -> (states: DiffMode)
    ensures
        accounts_view(states.pre) == entries_of(
            change_views(changes@),
            changes@.len() as int,
            Side::Before,
            *empty_code_hash,
        ),
        accounts_view(states.post) == entries_of(
            change_views(changes@),
            changes@.len() as int,
            Side::After,
            *empty_code_hash,
        ),
{
    let mut pre: OrderedMap<Address, AccountState> = OrderedMap::new();
    let mut post: OrderedMap<Address, AccountState> = OrderedMap::new();
    let mut at: usize = 0;
    assert(accounts_view(pre) =~= entries_of(change_views(changes@), 0, Side::Before, *empty_code_hash));
    assert(accounts_view(post) =~= entries_of(change_views(changes@), 0, Side::After, *empty_code_hash));
    while at < changes.len()
        invariant
            at <= changes@.len(),
            accounts_view(pre) == entries_of(change_views(changes@), at as int, Side::Before, *empty_code_hash),
            accounts_view(post) == entries_of(change_views(changes@), at as int, Side::After, *empty_code_hash),
        decreases changes@.len() - at,
    {
        let change = &changes[at];
        post.insert(change.address, change.diff_entry_after());
        pre.insert(change.address, change.diff_entry_before(empty_code_hash));
        assert(accounts_view(pre) =~= entries_of(
            change_views(changes@),
            at as int + 1,
            Side::Before,
            *empty_code_hash,
        ));
        assert(accounts_view(post) =~= entries_of(
            change_views(changes@),
            at as int + 1,
            Side::After,
            *empty_code_hash,
        ));
        at += 1;
    }
    DiffMode { pre, post }
}

/// Records the slot that `step` wrote, if it wrote one, in the storage of
/// the step's contract.
fn record_step(account_states: &mut OrderedMap<Address, AccountState>, step: &CallTraceStep, post_value: bool)
    ensures
        accounts_view(*final(account_states)) == with_step(accounts_view(*old(account_states)), *step, post_value),
{
    let change = match step.storage_change {
        Some(change) => change,
        None => {
            return ;
        },
    };
    let value = if post_value {
        H256::from_u256(change.value)
    } else {
        match change.had_value {
            Some(value) => H256::from_u256(value),
            None => {
                return ;
            },
        }
    };
    let mut state = match account_states.remove(&step.contract) {
        Some(state) => state,
        None => AccountState::default(),
    };
    assert(state@ == state_of(accounts_view(*old(account_states)), step.contract));
    let mut storage = match state.storage {
        Some(storage) => storage,
        None => OrderedMap::new(),
    };
    storage.insert(H256::from_u256(change.key), value);
    state.storage = Some(storage);
    account_states.insert(step.contract, state);
    assert(accounts_view(*account_states) =~~= with_step(accounts_view(*old(account_states)), *step, post_value));
}

/// Records in `account_states` every storage slot that a step of the call
/// tree wrote: the value written where `post_value` is set, else the value
/// that the slot held before.
pub fn update_storage_from_trace(
    nodes: &Vec<CallTraceNode>,
    account_states: &mut OrderedMap<Address, AccountState>,
    post_value: bool,
)
    ensures
        accounts_view(*final(account_states)) == with_storage_of(
            accounts_view(*old(account_states)),
            nodes@,
            nodes@.len() as int,
            post_value,
        ),
{
    let mut node: usize = 0;
    while node < nodes.len()
        invariant
            node <= nodes@.len(),
            accounts_view(*account_states) == with_storage_of(
                accounts_view(*old(account_states)),
                nodes@,
                node as int,
                post_value,
            ),
        decreases nodes@.len() - node,
    {
        let steps = &nodes[node].trace.steps;
        let ghost start = accounts_view(*account_states);
        let mut at: usize = 0;
        while at < steps.len()
            invariant
                steps@ == steps_of(nodes@, node as int),
                at <= steps@.len(),
                accounts_view(*account_states) == with_steps(start, steps@, at as int, post_value),
            decreases steps@.len() - at,
        {
            record_step(account_states, &steps[at], post_value);
            at += 1;
        }
        node += 1;
    }
}

/// The state of `address` in `states`; the state that gives nothing where there is none.
fn state_or_unset(states: &OrderedMap<Address, AccountState>, address: &Address) -> (state: AccountState)
    ensures
        state@ == state_of(accounts_view(*states), *address),
{
    match states.get(address) {
        Some(state) => state.clone(),
        None => AccountState::default(),
    }
}

/// The diff of the account states before and after a transaction.
///
/// Of the states before, an account stays unless it was created or is the
/// same after. Of the states after, an account stays unless it was destroyed
/// or is the same as before, and it keeps of balance, nonce and code what
/// changed. No state keeps a zero-valued slot.
pub fn diff_traces(pre: &OrderedMap<Address, AccountState>, post: &OrderedMap<Address, AccountState>) -> (out_diff:
    DiffMode)
    ensures
        accounts_view(out_diff.pre) == diff_before(accounts_view(*pre), accounts_view(*post)),
        accounts_view(out_diff.post) == diff_after(accounts_view(*pre), accounts_view(*post)),
{
    let ghost before = accounts_view(*pre);
    let ghost after = accounts_view(*post);
    let mut out_pre: OrderedMap<Address, AccountState> = OrderedMap::new();
    let pre_count = pre.len();
    let mut at: usize = 0;
    while at < pre_count
        invariant
            pre_count == pre.entries().len(),
            strictly_ascending(pre.entries()),
            before == accounts_view(*pre),
            after == accounts_view(*post),
            at <= pre_count,
            built_upto(accounts_view(out_pre), pre.entries(), at as int, diff_before(before, after)),
        decreases pre_count - at,
    {
        let addr = pre.key_at(at);
        let pre_state = pre.value_at(at);
        let post_state = state_or_unset(post, &addr);
        proof {
            lemma_built_step(accounts_view(out_pre), pre.entries(), at as int, diff_before(before, after));
        }
        let ghost built = accounts_view(out_pre);
        if !(pre_state.change_type == ChangeType::Create) && !pre_state.same_as(&post_state) {
            let mut pre_clone = pre_state.clone();
            pre_clone.storage = strip_zero_slots(&pre_state.storage);
            assert(pre_clone@ == pre_state@.without_zero_slots());
            out_pre.insert(addr, pre_clone);
            assert(accounts_view(out_pre) =~= built.insert(addr, diff_before(before, after)[addr]));
        }
        at += 1;
    }
    proof {
        lemma_built_all(accounts_view(out_pre), pre.entries(), diff_before(before, after));
    }
    let mut out_post: OrderedMap<Address, AccountState> = OrderedMap::new();
    let post_count = post.len();
    let mut at: usize = 0;
    while at < post_count
        invariant
            post_count == post.entries().len(),
            strictly_ascending(post.entries()),
            before == accounts_view(*pre),
            after == accounts_view(*post),
            at <= post_count,
            built_upto(accounts_view(out_post), post.entries(), at as int, diff_after(before, after)),
        decreases post_count - at,
    {
        let addr = post.key_at(at);
        let post_state = post.value_at(at);
        let pre_state = state_or_unset(pre, &addr);
        proof {
            lemma_built_step(accounts_view(out_post), post.entries(), at as int, diff_after(before, after));
        }
        let ghost built = accounts_view(out_post);
        if !(post_state.change_type == ChangeType::Destroy) && !pre_state.same_as(post_state) {
            let mut post_clone = post_state.clone();
            if pre_state.balance == post_state.balance {
                post_clone.balance = None;
            }
            if pre_state.nonce == post_state.nonce {
                post_clone.nonce = None;
            }
            if same_code(&pre_state.code, &post_state.code) {
                post_clone.code = None;
            }
            assert(post_clone@ == post_state@.without_unchanged(pre_state@));
            post_clone.storage = strip_zero_slots(&post_state.storage);
            assert(post_clone@ == post_state@.without_unchanged(pre_state@).without_zero_slots());
            out_post.insert(addr, post_clone);
            assert(accounts_view(out_post) =~= built.insert(addr, diff_after(before, after)[addr]));
        }
        at += 1;
    }
    proof {
        lemma_built_all(accounts_view(out_post), post.entries(), diff_after(before, after));
    }
    DiffMode { pre: out_pre, post: out_post }
}

impl GethTraceBuilder {
    /// The accounts that the transaction needed, or the diff of what it changed.
    ///
    /// `changes` holds the accounts that the transaction changed, each with
    /// what the state reader gave for it as of before the transaction.
    /// `empty_code_hash` is the hash that the reader gives to empty code.
    ///
    /// The prestate holds, for each changed account, balance, nonce and code
    /// as they were before. The diff holds the states before and after, cut
    /// down as `diff_traces` says. Both hold the storage slots that the steps
    /// of the call tree wrote.
    pub fn geth_prestate_traces(&self, changes: &Vec<AccountChange>, prestate_config: PreStateConfig, empty_code_hash: H256) -> (frame: PreStateFrame)
        ensures
            frame@ == prestate_frame(
                self.nodes(),
                change_views(changes@),
                prestate_config.is_diff_mode(),
                empty_code_hash,
            ),
    {
        let nodes = self.trace_nodes();
        let is_diff = prestate_config.is_diff_mode();
        if !is_diff {
            let mut prestate = collect_prestate(changes, &empty_code_hash);
            update_storage_from_trace(nodes, &mut prestate, false);
            PreStateFrame::Prestate(PreStateMode(prestate))
        } else {
            let state_diff = collect_diff(changes, &empty_code_hash);
            let mut pre = state_diff.pre;
            let mut post = state_diff.post;
            update_storage_from_trace(nodes, &mut pre, false);
            update_storage_from_trace(nodes, &mut post, true);
            PreStateFrame::Diff(diff_traces(&pre, &post))
        }
    }
}

} // verus!
