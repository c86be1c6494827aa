use crate::codec::{decoded_vault, vault_record_ok};
use crate::token::token_balance_of;
use crate::types::{DepositView, ProcessError, VaultError, VaultView};
use crate::vault::{
    committed, deposit_index, is_zero_key, storage_uninitialized, deposit_result, emergency_withdraw_result, fresh_vault,
    is_first_with_id, lemma_first_unique, withdraw_result,
};
use vstd::prelude::*;

verus! {

/// One request to the vault, with everything its outcome depends on (the
/// current time as the time source reported it).
pub enum Operation {
    Deposit {
        caller: Seq<u8>,
        amount: u64,
        unlock_time: i64,
        tag: Seq<u8>,
        now: i64,
        source: Seq<u8>,
    },
    Withdraw { caller: Seq<u8>, deposit_id: u64, now: i64 },
    EmergencyWithdraw { caller: Seq<u8>, depositor: Seq<u8>, deposit_id: u64 },
}

/// The staged outcome of `op` on `v`, as the vault decides it (the handlers
/// also refuse a foreign token program, as their last check).
pub open spec fn staged(v: VaultView, op: Operation) -> Result<VaultView, ProcessError> {
    match op {
        Operation::Deposit { caller, amount, unlock_time, tag, now, source } => deposit_result(
            v,
            caller,
            amount,
            unlock_time,
            tag,
            now,
            source,
        ),
        Operation::Withdraw { caller, deposit_id, now } => match withdraw_result(
            v,
            caller,
            deposit_id,
            now,
        ) {
            Ok(p) => Ok(p),
            Err(e) => Err(ProcessError::Vault(e)),
        },
        Operation::EmergencyWithdraw { caller, depositor, deposit_id } => match emergency_withdraw_result(
            v,
            caller,
            depositor,
            deposit_id,
        ) {
            Ok(p) => Ok(p),
            Err(e) => Err(ProcessError::Vault(e)),
        },
    }
}

/// One operation as the host runs it: the vault's decision, then, when the
/// vault staged it, the ledger transfer, which either goes through or fails.
pub struct Step {
    pub op: Operation,
    pub transfer_succeeds: bool,
}

/// `op` with a transfer that goes through.
pub open spec fn succeeding(op: Operation) -> Step {
    Step { op, transfer_succeeds: true }
}

/// Whether `step` commits on `v`: the vault stages it and its transfer goes
/// through.
pub open spec fn commits(v: VaultView, step: Step) -> bool {
    staged(v, step.op) is Ok && step.transfer_succeeds
}

/// The durable state after `step`: the committed staged state when it
/// commits, and `v` itself otherwise, whether the vault refused the
/// operation or its transfer failed (all or nothing).
pub open spec fn after(v: VaultView, step: Step) -> VaultView {
    if commits(v, step) {
        committed(staged(v, step.op)->Ok_0)
    } else {
        v
    }
}

/// The durable state after the operations `ops`, in order.
pub open spec fn run(v: VaultView, ops: Seq<Step>) -> VaultView
    decreases ops.len(),
{
    if ops.len() == 0 {
        v
    } else {
        after(run(v, ops.drop_last()), ops.last())
    }
}

/// `w` keeps every record of `v` in place, changed at most in its
/// `withdrawn` flag, which only goes from false to true; the owner and the
/// emergency authority stay.
pub open spec fn extends(v: VaultView, w: VaultView) -> bool {
    &&& w.owner == v.owner
    &&& w.emergency_authority == v.emergency_authority
    &&& w.deposit_count >= v.deposit_count
    &&& w.deposits.len() >= v.deposits.len()
    &&& forall|i: int|
        0 <= i < v.deposits.len() ==> (#[trigger] w.deposits[i]) == DepositView {
            withdrawn: w.deposits[i].withdrawn,
            ..v.deposits[i]
        } && (v.deposits[i].withdrawn ==> w.deposits[i].withdrawn)
}

/// A staged operation whose transfer fails leaves the durable state as it
/// was, guard included.
pub proof fn lemma_failed_transfer_changes_nothing(v: VaultView, op: Operation)
    ensures
        after(v, Step { op, transfer_succeeds: false }) == v,
{
}

proof fn lemma_step_extends(v: VaultView, op: Step)
    ensures
        extends(v, after(v, op)),
{
    let w = after(v, op);
    assert forall|i: int| 0 <= i < v.deposits.len() implies (#[trigger] w.deposits[i])
        == DepositView { withdrawn: w.deposits[i].withdrawn, ..v.deposits[i] } && (
    v.deposits[i].withdrawn ==> w.deposits[i].withdrawn) by {}
}

proof fn lemma_extends_trans(u: VaultView, v: VaultView, w: VaultView)
    requires
        extends(u, v),
        extends(v, w),
    ensures
        extends(u, w),
{
    assert forall|i: int| 0 <= i < u.deposits.len() implies (#[trigger] w.deposits[i])
        == DepositView { withdrawn: w.deposits[i].withdrawn, ..u.deposits[i] } && (
    u.deposits[i].withdrawn ==> w.deposits[i].withdrawn) by {
        assert(v.deposits[i] == DepositView { withdrawn: v.deposits[i].withdrawn, ..u.deposits[i] });
    }
}

/// The ledger is append-only: over any sequence of operations no deposit is
/// removed, reordered or altered but for its `withdrawn` flag, which never
/// reverts, and the list never gets shorter.
pub proof fn lemma_ledger_append_only(v: VaultView, ops: Seq<Step>)
    ensures
        extends(v, run(v, ops)),
        run(v, ops).deposits.len() >= v.deposits.len(),
    decreases ops.len(),
{
    if ops.len() > 0 {
        lemma_ledger_append_only(v, ops.drop_last());
        lemma_step_extends(run(v, ops.drop_last()), ops.last());
        lemma_extends_trans(v, run(v, ops.drop_last()), run(v, ops));
    }
}

/// Every operation keeps the vault well formed.
pub proof fn lemma_wf_preserved(v: VaultView, ops: Seq<Step>)
    requires
        v.wf(),
    ensures
        run(v, ops).wf(),
    decreases ops.len(),
{
    if ops.len() > 0 {
        lemma_wf_preserved(v, ops.drop_last());
        let u = run(v, ops.drop_last());
        let w = run(v, ops);
        assert forall|i: int| 0 <= i < w.deposits.len() implies (#[trigger] w.deposits[i]).id == i
            && w.deposits[i].wf() by {
            if i < u.deposits.len() {
                lemma_step_extends(u, ops.last());
                assert(w.deposits[i] == DepositView { withdrawn: w.deposits[i].withdrawn, ..u.deposits[i] });
            }
        }
    }
}

/// A vault is created only once: storage holding a stored vault of a
/// non-zero owner never reads as empty, so `Vault::create` over it fails
/// (`AccountAlreadyInUse` for any caller that can sign). Every vault that
/// `create` returns has a non-zero owner, and no operation changes the owner
/// (`lemma_ledger_append_only`), so this covers every state of every vault.
pub proof fn lemma_created_once(v: VaultView, stored: Seq<u8>)
    requires
        v.owner.len() == 32,
        !is_zero_key(v.owner),
        vault_record_ok(stored),
        decoded_vault(stored) == v,
    ensures
        !storage_uninitialized(stored),
{
    let i = choose|i: int| 0 <= i < v.owner.len() && v.owner[i] != 0;
    assert(stored.subrange(0, 32)[i] == stored[i]);
}

/// A fresh vault is well formed.
pub proof fn lemma_fresh_vault_wf(owner: Seq<u8>)
    ensures
        fresh_vault(owner).wf(),
{
}

/// The durable guard is down whenever no operation is in flight: starting
/// from a vault whose guard is down, it is down after any sequence of
/// operations, failed ones included.
pub proof fn lemma_guard_down_between_operations(v: VaultView, ops: Seq<Step>)
    requires
        !v.reentrancy_guard,
    ensures
        !run(v, ops).reentrancy_guard,
    decreases ops.len(),
{
    if ops.len() > 0 {
        lemma_guard_down_between_operations(v, ops.drop_last());
    }
}

/// Whether `step` commits a new deposit on `v`.
pub open spec fn commits_deposit(v: VaultView, step: Step) -> bool {
    step.op is Deposit && commits(v, step)
}

/// How many of the operations `ops`, run from `v`, committed a deposit.
pub open spec fn committed_deposits(v: VaultView, ops: Seq<Step>) -> nat
    decreases ops.len(),
{
    if ops.len() == 0 {
        0
    } else {
        committed_deposits(v, ops.drop_last()) + if commits_deposit(
            run(v, ops.drop_last()),
            ops.last(),
        ) {
            1nat
        } else {
            0nat
        }
    }
}

/// On a fresh vault, under any sequence of operations (failed ones,
/// withdrawals and emergency withdrawals interleaved), the deposits that
/// commit get the ids 0, 1, 2, ... in call order: the list holds exactly
/// them, id equal to position, the counter counts them, and each one's id is
/// the number of deposits committed before it.
pub proof fn lemma_ids_in_call_order(owner: Seq<u8>, ops: Seq<Step>)
    ensures
        run(fresh_vault(owner), ops).deposits.len() == committed_deposits(fresh_vault(owner), ops),
        run(fresh_vault(owner), ops).deposit_count == committed_deposits(fresh_vault(owner), ops),
        forall|i: int|
            0 <= i < run(fresh_vault(owner), ops).deposits.len() ==> (#[trigger] run(
                fresh_vault(owner),
                ops,
            ).deposits[i]).id == i,
        forall|j: int|
            0 <= j < ops.len() && #[trigger] commits_deposit(
                run(fresh_vault(owner), ops.take(j)),
                ops[j],
            ) ==> run(fresh_vault(owner), ops.take(j + 1)).deposits.last().id
                == committed_deposits(fresh_vault(owner), ops.take(j)),
    decreases ops.len(),
{
    let v0 = fresh_vault(owner);
    lemma_wf_preserved(v0, ops);
    if ops.len() > 0 {
        lemma_ids_in_call_order(owner, ops.drop_last());
    }
    assert forall|j: int|
        0 <= j < ops.len() && #[trigger] commits_deposit(run(v0, ops.take(j)), ops[j]) implies run(
        v0,
        ops.take(j + 1),
    ).deposits.last().id == committed_deposits(v0, ops.take(j)) by {
        let front = ops.take(j);
        assert(ops.take(j + 1).drop_last() =~= front);
        assert(ops.take(j + 1).last() == ops[j]);
        lemma_ids_in_call_order(owner, front);
    }
}

/// A deposit is paid out at most once: after a Withdraw or Emergency-Withdraw
/// of it that commits, and any operations after that, a second Withdraw
/// or Emergency-Withdraw of it fails; it fails `AlreadyWithdrawn` once the
/// caller passes the authorization checks that come before that one.
pub proof fn lemma_withdrawn_at_most_once(
    v: VaultView,
    first: Operation,
    middle: Seq<Step>,
    second: Operation,
    id: u64,
)
    requires
        first is Withdraw ==> first->Withdraw_deposit_id == id,
        first is EmergencyWithdraw ==> first->EmergencyWithdraw_deposit_id == id,
        !(first is Deposit),
        staged(v, first) is Ok,
        second is Withdraw ==> second->Withdraw_deposit_id == id,
        second is EmergencyWithdraw ==> second->EmergencyWithdraw_deposit_id == id,
        !(second is Deposit),
    ensures
        staged(run(after(v, succeeding(first)), middle), second) is Err,
        second is Withdraw && second->Withdraw_caller == v.deposits[deposit_index(
            v.deposits,
            id,
        ).unwrap()].depositor ==> staged(run(after(v, succeeding(first)), middle), second) == Err::<
            VaultView,
            ProcessError,
        >(ProcessError::Vault(VaultError::AlreadyWithdrawn)),
        second is EmergencyWithdraw && v.emergency_authority == Some(
            second->EmergencyWithdraw_caller,
        ) ==> staged(run(after(v, succeeding(first)), middle), second) == Err::<VaultView, ProcessError>(
            ProcessError::Vault(VaultError::AlreadyWithdrawn),
        ),
{
    let i = deposit_index(v.deposits, id).unwrap();
    let w1 = after(v, succeeding(first));
    let w = run(w1, middle);
    assert(is_first_with_id(v.deposits, id, i));
    assert(w1.deposits[i].withdrawn);
    lemma_step_extends(v, succeeding(first));
    lemma_ledger_append_only(w1, middle);
    lemma_guard_down_between_operations(w1, middle);
    assert(w.deposits[i] == DepositView { withdrawn: w.deposits[i].withdrawn, ..w1.deposits[i] });
    assert(w1.deposits[i] == DepositView { withdrawn: w1.deposits[i].withdrawn, ..v.deposits[i] });
    assert forall|j: int| 0 <= j < i implies (#[trigger] w.deposits[j]).id != id by {
        assert(w.deposits[j] == DepositView { withdrawn: w.deposits[j].withdrawn, ..w1.deposits[j] });
        assert(w1.deposits[j] == DepositView { withdrawn: w1.deposits[j].withdrawn, ..v.deposits[j] });
        assert(v.deposits[j].id != id);
    }
    assert(is_first_with_id(w.deposits, id, i));
    lemma_first_unique(w.deposits, id, i);
}

/// The time lock: for the depositor of an unwithdrawn deposit with unlock
/// time `T`, on a vault with no operation in flight, Withdraw fails
/// `UnlockTimeNotReached` exactly when `now < T` and succeeds exactly when
/// `now >= T`.
pub proof fn lemma_time_lock(v: VaultView, caller: Seq<u8>, id: u64, now: i64)
    requires
        !v.reentrancy_guard,
        deposit_index(v.deposits, id) is Some,
        v.deposits[deposit_index(v.deposits, id).unwrap()].depositor == caller,
        !v.deposits[deposit_index(v.deposits, id).unwrap()].withdrawn,
    ensures
        withdraw_result(v, caller, id, now) == Err::<VaultView, VaultError>(
            VaultError::UnlockTimeNotReached,
        ) <==> now < v.deposits[deposit_index(v.deposits, id).unwrap()].unlock_time,
        withdraw_result(v, caller, id, now) is Ok <==> now >= v.deposits[deposit_index(
            v.deposits,
            id,
        ).unwrap()].unlock_time,
{
}

/// Only the deposit's recorded depositor can withdraw it: anyone else, the
/// vault's owner included, is refused `UnauthorizedWithdrawal`.
pub proof fn lemma_only_depositor_withdraws(v: VaultView, caller: Seq<u8>, id: u64, now: i64)
    requires
        !v.reentrancy_guard,
        deposit_index(v.deposits, id) is Some,
        v.deposits[deposit_index(v.deposits, id).unwrap()].depositor != caller,
    ensures
        withdraw_result(v, caller, id, now) == Err::<VaultView, VaultError>(
            VaultError::UnauthorizedWithdrawal,
        ),
{
}

/// A deposit that would take the counter past its largest value fails
/// `MathOverflow` and leaves the vault as it was.
pub proof fn lemma_counter_overflow_refused(
    v: VaultView,
    caller: Seq<u8>,
    amount: u64,
    unlock_time: i64,
    tag: Seq<u8>,
    now: i64,
    source: Seq<u8>,
    transfer_succeeds: bool,
)
    requires
        v.deposit_count == u64::MAX,
        !v.reentrancy_guard,
        amount > 0,
        unlock_time > now,
        token_balance_of(source) matches Ok((_, balance)) && balance >= amount,
    ensures
        deposit_result(v, caller, amount, unlock_time, tag, now, source) == Err::<
            VaultView,
            ProcessError,
        >(ProcessError::Vault(VaultError::MathOverflow)),
        after(
            v,
            Step {
                op: Operation::Deposit { caller, amount, unlock_time, tag, now, source },
                transfer_succeeds,
            },
        ) == v,
{
}

} // verus!
