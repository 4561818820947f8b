//! What holds of every diff of account states.

use vstd::prelude::*;
use crate::prestate::{
    diff_after, diff_before, nonzero_slots, nonzero_storage, state_of, AccountStateView, ChangeType,
};
use crate::primitives::{Address, H256};

verus! {

/// An account that was created has no state before in the diff, and an
/// account that was destroyed has no state after in it.
pub proof fn lemma_diff_leaves_out_created_and_destroyed(
    before: Map<Address, AccountStateView>,
    after: Map<Address, AccountStateView>,
    address: Address,
)
    ensures
        before.contains_key(address) && before[address].change_type == ChangeType::Create ==> !diff_before(
            before,
            after,
        ).contains_key(address),
        after.contains_key(address) && after[address].change_type == ChangeType::Destroy ==> !diff_after(
            before,
            after,
        ).contains_key(address),
{
}

/// The state after of an account in the diff gives of balance, nonce and
/// code what differs from before, and nothing of what is the same.
pub proof fn lemma_diff_after_gives_what_changed(
    before: Map<Address, AccountStateView>,
    after: Map<Address, AccountStateView>,
    address: Address,
)
    requires
        diff_after(before, after).contains_key(address),
    ensures
        ({
            let was = state_of(before, address);
            let is = after[address];
            let given = diff_after(before, after)[address];
            &&& given.balance == if was.balance == is.balance {
                None
            } else {
                is.balance
            }
            &&& given.nonce == if was.nonce == is.nonce {
                None
            } else {
                is.nonce
            }
            &&& given.code == if was.code == is.code {
                None
            } else {
                is.code
            }
        }),
{
}

/// Where only the storage of an account changed, its state after in the diff
/// gives storage alone: no balance, no nonce and no code.
pub proof fn lemma_diff_after_of_storage_change(
    before: Map<Address, AccountStateView>,
    after: Map<Address, AccountStateView>,
    address: Address,
)
    requires
        diff_after(before, after).contains_key(address),
        state_of(before, address).balance == after[address].balance,
        state_of(before, address).nonce == after[address].nonce,
        state_of(before, address).code == after[address].code,
    ensures
        diff_after(before, after)[address].balance is None,
        diff_after(before, after)[address].nonce is None,
        diff_after(before, after)[address].code is None,
{
}

/// A storage that is given in the diff holds a slot, and no slot of it holds zero.
pub open spec fn holds_no_zero(storage: Option<Map<H256, H256>>) -> bool {
    match storage {
        Some(slots) => slots != Map::<H256, H256>::empty() && forall|key: H256| #[trigger]
            slots.contains_key(key) ==> !slots[key].is_zero(),
        None => true,
    }
}

/// No state in the diff, before or after, gives a zero-valued storage slot.
pub proof fn lemma_diff_has_no_zero_slots(
    before: Map<Address, AccountStateView>,
    after: Map<Address, AccountStateView>,
    address: Address,
)
    ensures
        diff_before(before, after).contains_key(address) ==> holds_no_zero(
            diff_before(before, after)[address].storage,
        ),
        diff_after(before, after).contains_key(address) ==> holds_no_zero(
            diff_after(before, after)[address].storage,
        ),
{
    if diff_before(before, after).contains_key(address) {
        lemma_nonzero_storage_holds_no_zero(before[address].storage);
    }
    if diff_after(before, after).contains_key(address) {
        lemma_nonzero_storage_holds_no_zero(after[address].storage);
    }
}

/// A storage cut down to its non-zero slots holds no zero.
proof fn lemma_nonzero_storage_holds_no_zero(storage: Option<Map<H256, H256>>)
    ensures
        holds_no_zero(nonzero_storage(storage)),
{
    match storage {
        Some(slots) => {
            let kept = nonzero_slots(slots);
            assert forall|key: H256| #[trigger] kept.contains_key(key) implies !kept[key].is_zero() by {}
        },
        None => {},
    }
}

} // verus!
