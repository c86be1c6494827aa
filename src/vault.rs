use crate::token::{
    is_token_transfer, token_balance_of, token_program_id, transfer_instruction,
    unpack_token_balance, LedgerInstruction,
};
use crate::types::{
    Deposit, DepositView, HostError, ProcessError, Pubkey, Vault, VaultError, VaultView,
};
use vstd::prelude::*;

verus! {

/// Who authorizes an outgoing balance transfer.
#[derive(Clone, Copy, Debug, PartialEq, Eq, Structural)]
pub enum TransferAuthority {
    /// The depositor's own signature, moving funds into custody.
    Depositor,
    /// The vault's derived authority, moving funds out of custody.
    Vault,
}

/// The balance transfer that a staged operation asks the ledger service to
/// perform before it is committed: `amount` from `source` to `destination`
/// through `token_program`, signed by `authority`.
#[derive(Clone, Copy, Debug, PartialEq, Eq)]
pub struct Transfer {
    pub token_program: Pubkey,
    pub source: Pubkey,
    pub destination: Pubkey,
    pub authority: Pubkey,
    pub authority_kind: TransferAuthority,
    pub amount: u64,
}

/// The accounts a transfer moves funds between, and the token program that
/// keeps them.
#[derive(Clone, Copy, Debug, PartialEq, Eq)]
pub struct TransferKeys {
    pub token_program: Pubkey,
    pub source: Pubkey,
    pub destination: Pubkey,
}

/// A staged operation's transfer, and the instruction that performs it.
#[derive(Clone, Debug)]
pub struct Staged {
    pub transfer: Transfer,
    pub instruction: LedgerInstruction,
}

pub open spec fn transfer_of(
    keys: TransferKeys,
    authority: Pubkey,
    authority_kind: TransferAuthority,
    amount: u64,
) -> Transfer {
    Transfer {
        token_program: keys.token_program,
        source: keys.source,
        destination: keys.destination,
        authority,
        authority_kind,
        amount,
    }
}

/// Whether `s` describes the transfer `t` and carries the token program's
/// instruction for exactly that transfer.
pub open spec fn stages(s: Staged, t: Transfer) -> bool {
    &&& s.transfer == t
    &&& is_token_transfer(
        s.instruction,
        t.token_program,
        t.source,
        t.destination,
        t.authority,
        t.amount,
    )
}

/// Whether position `i` holds the first deposit with id `id`.
pub open spec fn is_first_with_id(s: Seq<DepositView>, id: u64, i: int) -> bool {
    &&& 0 <= i < s.len()
    &&& s[i].id == id
    &&& forall|j: int| 0 <= j < i ==> (#[trigger] s[j]).id != id
}

/// The position of the first deposit with id `id`, if there is one.
pub open spec fn deposit_index(s: Seq<DepositView>, id: u64) -> Option<int> {
    if exists|i: int| is_first_with_id(s, id, i) {
        Some(choose|i: int| is_first_with_id(s, id, i))
    } else {
        None
    }
}

pub proof fn lemma_first_unique(s: Seq<DepositView>, id: u64, i: int)
    requires
        is_first_with_id(s, id, i),
    ensures
        deposit_index(s, id) == Some(i),
{
    let k = choose|k: int| is_first_with_id(s, id, k);
    assert(is_first_with_id(s, id, k));
    if k < i {
        assert(s[k].id != id);
    } else if i < k {
        assert(s[i].id != id);
    }
}

/// A freshly created vault of `owner`.
pub open spec fn fresh_vault(owner: Seq<u8>) -> VaultView {
    VaultView {
        owner,
        deposit_count: 0,
        deposits: Seq::empty(),
        reentrancy_guard: false,
        emergency_authority: None,
    }
}

/// Whether `k` is the all-zero identity.
pub open spec fn is_zero_key(k: Seq<u8>) -> bool {
    forall|i: int| 0 <= i < k.len() ==> k[i] == 0
}

/// Whether storage holds nothing yet: no byte other than zero.
pub open spec fn storage_uninitialized(data: Seq<u8>) -> bool {
    forall|i: int| 0 <= i < data.len() ==> data[i] == 0
}

/// The state that a staged operation is committed as: the guard is down.
pub open spec fn committed(v: VaultView) -> VaultView {
    VaultView { reentrancy_guard: false, ..v }
}

/// A deposit: on success, the staged vault (guard up) with the new record
/// appended under the next id and the counter advanced.
pub open spec fn deposit_result(
    v: VaultView,
    caller: Seq<u8>,
    amount: u64,
    unlock_time: i64,
    tag: Seq<u8>,
    now: i64,
    source: Seq<u8>,
) -> Result<VaultView, ProcessError> {
    if v.reentrancy_guard {
        Err(ProcessError::Vault(VaultError::ReentrancyDetected))
    } else if amount == 0 {
        Err(ProcessError::Vault(VaultError::InvalidAmount))
    } else if unlock_time <= now {
        Err(ProcessError::Vault(VaultError::InvalidUnlockTime))
    } else {
        match token_balance_of(source) {
            Err(e) => Err(ProcessError::Host(e)),
            Ok((mint, balance)) => if balance < amount {
                Err(ProcessError::Vault(VaultError::InsufficientFunds))
            } else if v.deposit_count == u64::MAX {
                Err(ProcessError::Vault(VaultError::MathOverflow))
            } else {
                let d = DepositView {
                    id: v.deposit_count,
                    depositor: caller,
                    token_mint: mint,
                    amount,
                    unlock_time,
                    withdrawn: false,
                    tag,
                    created_at: now,
                };
                Ok(
                    VaultView {
                        deposit_count: (v.deposit_count + 1) as u64,
                        deposits: v.deposits.push(d),
                        reentrancy_guard: true,
                        ..v
                    },
                )
            },
        }
    }
}

/// `v` with the deposit at `i` marked withdrawn and the guard up.
pub open spec fn mark_withdrawn(v: VaultView, i: int) -> VaultView {
    VaultView {
        deposits: v.deposits.update(i, DepositView { withdrawn: true, ..v.deposits[i] }),
        reentrancy_guard: true,
        ..v
    }
}

/// The checks of an ordinary withdrawal by `caller` that come before the
/// time is read; on success, the deposit's position.
pub open spec fn withdraw_precheck(v: VaultView, caller: Seq<u8>, id: u64) -> Result<
    int,
    VaultError,
> {
    if v.reentrancy_guard {
        Err(VaultError::ReentrancyDetected)
    } else {
        match deposit_index(v.deposits, id) {
            None => Err(VaultError::DepositNotFound),
            Some(i) => if v.deposits[i].depositor != caller {
                Err(VaultError::UnauthorizedWithdrawal)
            } else if v.deposits[i].withdrawn {
                Err(VaultError::AlreadyWithdrawn)
            } else {
                Ok(i)
            },
        }
    }
}

/// An ordinary withdrawal by `caller` at time `now`.
pub open spec fn withdraw_result(v: VaultView, caller: Seq<u8>, id: u64, now: i64) -> Result<
    VaultView,
    VaultError,
> {
    match withdraw_precheck(v, caller, id) {
        Err(e) => Err(e),
        Ok(i) => if v.deposits[i].unlock_time > now {
            Err(VaultError::UnlockTimeNotReached)
        } else {
            Ok(mark_withdrawn(v, i))
        },
    }
}

/// A withdrawal as the handler runs it, where `now` is `None` when the time
/// source could not be read (`InvalidArgument`, reported where the time is
/// first needed).
pub open spec fn withdraw_outcome(v: VaultView, caller: Seq<u8>, id: u64, now: Option<i64>) -> Result<
    VaultView,
    ProcessError,
> {
    match now {
        Some(t) => match withdraw_result(v, caller, id, t) {
            Ok(p) => Ok(p),
            Err(e) => Err(ProcessError::Vault(e)),
        },
        None => match withdraw_precheck(v, caller, id) {
            Err(e) => Err(ProcessError::Vault(e)),
            Ok(_) => Err(ProcessError::Host(HostError::InvalidArgument)),
        },
    }
}

/// A deposit as the handler runs it, where `now` is `None` when the time
/// source could not be read (`InvalidArgument`, reported where the time is
/// first needed).
pub open spec fn deposit_outcome(
    v: VaultView,
    caller: Seq<u8>,
    amount: u64,
    unlock_time: i64,
    tag: Seq<u8>,
    now: Option<i64>,
    source: Seq<u8>,
) -> Result<VaultView, ProcessError> {
    match now {
        Some(t) => deposit_result(v, caller, amount, unlock_time, tag, t, source),
        None => if v.reentrancy_guard {
            Err(ProcessError::Vault(VaultError::ReentrancyDetected))
        } else if amount == 0 {
            Err(ProcessError::Vault(VaultError::InvalidAmount))
        } else {
            Err(ProcessError::Host(HostError::InvalidArgument))
        },
    }
}

/// A withdrawal by the emergency authority `caller`, naming the deposit's
/// `depositor`; no unlock time applies.
pub open spec fn emergency_withdraw_result(
    v: VaultView,
    caller: Seq<u8>,
    depositor: Seq<u8>,
    id: u64,
) -> Result<VaultView, VaultError> {
    if v.reentrancy_guard {
        Err(VaultError::ReentrancyDetected)
    } else if v.emergency_authority != Some(caller) {
        Err(VaultError::UnauthorizedWithdrawal)
    } else {
        match deposit_index(v.deposits, id) {
            None => Err(VaultError::DepositNotFound),
            Some(i) => if v.deposits[i].withdrawn {
                Err(VaultError::AlreadyWithdrawn)
            } else if v.deposits[i].depositor != depositor {
                Err(VaultError::UnauthorizedWithdrawal)
            } else {
                Ok(mark_withdrawn(v, i))
            },
        }
    }
}

/// The amount held by deposit `id` of `v` (meaningful where it exists).
pub open spec fn amount_of(v: VaultView, id: u64) -> u64 {
    v.deposits[deposit_index(v.deposits, id).unwrap()].amount
}

/// The host-level checks that come first in every handler: the acting
/// account signed, and the vault's storage belongs to this program.
pub fn check_accounts(signed: bool, storage_owner: &Pubkey, program_id: &Pubkey) -> (r: Result<
    (),
    HostError,
>)
    ensures
        r == if !signed {
            Err::<(), HostError>(HostError::MissingRequiredSignature)
        } else if storage_owner@ != program_id@ {
            Err(HostError::IncorrectProgramId)
        } else {
            Ok(())
        },
{
    if !signed {
        return Err(HostError::MissingRequiredSignature);
    }
    if !storage_owner.same(program_id) {
        return Err(HostError::IncorrectProgramId);
    }
    Ok(())
}

impl Vault {
    /// Creates the vault of `owner` in `storage`, which must hold no data
    /// yet. The all-zero identity cannot sign, so it cannot own a vault; this
    /// also means no stored vault reads as empty storage.
    pub fn create(owner: Pubkey, storage: &[u8]) -> (r: Result<Vault, ProcessError>)
        ensures
            r is Ok <==> !is_zero_key(owner@) && storage_uninitialized(storage@),
            is_zero_key(owner@) ==> r == Err::<Vault, ProcessError>(
                ProcessError::Host(HostError::MissingRequiredSignature),
            ),
            !is_zero_key(owner@) && !storage_uninitialized(storage@) ==> r == Err::<
                Vault,
                ProcessError,
            >(ProcessError::Vault(VaultError::AccountAlreadyInUse)),
            r matches Ok(v) ==> v@ == fresh_vault(owner@) && v@.wf(),
    {
        let mut j: usize = 0;
        let mut zero = true;
        while j < 32
            invariant
                0 <= j <= 32,
                owner@.len() == 32,
                zero == forall|i: int| 0 <= i < j ==> owner@[i] == 0,
            decreases 32 - j,
        {
            if owner.bytes[j] != 0 {
                zero = false;
            }
            j = j + 1;
        }
        if zero {
            return Err(ProcessError::Host(HostError::MissingRequiredSignature));
        }
        assert(!is_zero_key(owner@));
        let mut i: usize = 0;
        while i < storage.len()
            invariant
                0 <= i <= storage@.len(),
                !is_zero_key(owner@),
                forall|j: int| 0 <= j < i ==> storage@[j] == 0,
            decreases storage@.len() - i,
        {
            if storage[i] != 0 {
                return Err(ProcessError::Vault(VaultError::AccountAlreadyInUse));
            }
            i = i + 1;
        }
        let v = Vault {
            owner,
            deposit_count: 0,
            deposits: Vec::new(),
            reentrancy_guard: false,
            emergency_authority: None,
        };
        assert(v@.deposits =~= Seq::<DepositView>::empty());
        Ok(v)
    }

    /// The position of the first deposit with id `id`.
    pub fn find_deposit(&self, id: u64) -> (r: Option<usize>)
        ensures
            r matches Some(i) ==> deposit_index(self@.deposits, id) == Some(i as int),
            r is None ==> deposit_index(self@.deposits, id) is None,
    {
        let mut i: usize = 0;
        while i < self.deposits.len()
            invariant
                0 <= i <= self.deposits@.len(),
                self@.deposits.len() == self.deposits@.len(),
                forall|j: int| 0 <= j < i ==> (#[trigger] self@.deposits[j]).id != id,
            decreases self.deposits@.len() - i,
        {
            if self.deposits[i].id == id {
                proof {
                    lemma_first_unique(self@.deposits, id, i as int);
                }
                return Some(i);
            }
            i = i + 1;
        }
        proof {
            if exists|k: int| is_first_with_id(self@.deposits, id, k) {
                let k = choose|k: int| is_first_with_id(self@.deposits, id, k);
                assert(self@.deposits[k].id != id);
            }
        }
        None
    }

    /// Takes the guard down once the staged operation's transfer went
    /// through; the result is the state to persist.
    pub fn commit(&mut self)
        ensures
            final(self)@ == committed(old(self)@),
    {
        self.reentrancy_guard = false;
    }

    /// Settles a staged operation by the outcome of its transfer: committed
    /// when the transfer went through, and otherwise the state from `before`
    /// the operation, so a failed transfer leaves nothing behind.
    pub fn conclude(self, before: Vault, transfer_succeeded: bool) -> (r: Vault)
        ensures
            r@ == if transfer_succeeded {
                committed(self@)
            } else {
                before@
            },
    {
        if transfer_succeeded {
            let mut v = self;
            v.commit();
            v
        } else {
            before
        }
    }

    /// Stages a deposit of `amount` by `caller`, locked until `unlock_time`,
    /// funded from the token account record `source`; `now` is the current
    /// time, `None` when the time source could not be read. On success the vault holds the staged state and the transfer
    /// into custody is returned; on failure it is left as it was.
    pub fn begin_deposit(
        &mut self,
        caller: Pubkey,
        amount: u64,
        unlock_time: i64,
        tag: [u8; 32],
        now: Option<i64>,
        source: &[u8],
        keys: &TransferKeys,
    ) -> (r: Result<Staged, ProcessError>)
        ensures
            match deposit_outcome(old(self)@, caller@, amount, unlock_time, tag@, now, source@) {
                Ok(post) => if keys.token_program@ == token_program_id() {
                    &&& final(self)@ == post
                    &&& r matches Ok(s)
                    &&& stages(s, transfer_of(*keys, caller, TransferAuthority::Depositor, amount))
                } else {
                    &&& final(self)@ == old(self)@
                    &&& r == Err::<Staged, ProcessError>(ProcessError::Host(HostError::IncorrectProgramId))
                },
                Err(e) => final(self)@ == old(self)@ && r == Err::<Staged, ProcessError>(e),
            },
    {
        if self.reentrancy_guard {
            return Err(ProcessError::Vault(VaultError::ReentrancyDetected));
        }
        if amount == 0 {
            return Err(ProcessError::Vault(VaultError::InvalidAmount));
        }
        let now = match now {
            Some(t) => t,
            None => {
                return Err(ProcessError::Host(HostError::InvalidArgument));
            },
        };
        if unlock_time <= now {
            return Err(ProcessError::Vault(VaultError::InvalidUnlockTime));
        }
        let balance = match unpack_token_balance(source) {
            Ok(b) => b,
            Err(e) => {
                return Err(ProcessError::Host(e));
            },
        };
        if balance.amount < amount {
            return Err(ProcessError::Vault(VaultError::InsufficientFunds));
        }
        if self.deposit_count == u64::MAX {
            return Err(ProcessError::Vault(VaultError::MathOverflow));
        }
        let deposit = Deposit {
            id: self.deposit_count,
            depositor: caller,
            token_mint: balance.mint,
            amount,
            unlock_time,
            withdrawn: false,
            tag,
            created_at: now,
        };
        let instruction = match transfer_instruction(
            &keys.token_program,
            &keys.source,
            &keys.destination,
            &caller,
            amount,
        ) {
            Ok(ix) => ix,
            Err(e) => {
                return Err(ProcessError::Host(e));
            },
        };
        let ghost pre = self.deposits@;
        self.reentrancy_guard = true;
        self.deposits.push(deposit);
        self.deposit_count = self.deposit_count + 1;
        assert(self.deposits@.map_values(|d: Deposit| d@) =~= pre.map_values(|d: Deposit| d@).push(
            deposit@,
        ));
        let transfer = Transfer {
            token_program: keys.token_program,
            source: keys.source,
            destination: keys.destination,
            authority: caller,
            authority_kind: TransferAuthority::Depositor,
            amount,
        };
        Ok(Staged { transfer, instruction })
    }

    /// Marks deposit `i` withdrawn and raises the guard.
    fn stage_withdrawal(&mut self, i: usize)
        requires
            i < old(self).deposits@.len(),
        ensures
            final(self)@ == mark_withdrawn(old(self)@, i as int),
    {
        let ghost pre = self.deposits@;
        let mut d = self.deposits[i];
        d.withdrawn = true;
        self.reentrancy_guard = true;
        self.deposits.set(i, d);
        assert(self.deposits@.map_values(|d: Deposit| d@) =~= pre.map_values(|d: Deposit| d@).update(
            i as int,
            d@,
        ));
    }

    /// Stages the withdrawal of deposit `deposit_id` by `caller` at time
    /// `now` (`None` when the time source could not be read). On success the vault holds the staged state and the transfer
    /// out of custody is returned; on failure it is left as it was.
    pub fn begin_withdraw(
        &mut self,
        caller: Pubkey,
        deposit_id: u64,
        now: Option<i64>,
        vault_key: &Pubkey,
        keys: &TransferKeys,
    ) -> (r: Result<Staged, ProcessError>)
        ensures
            match withdraw_outcome(old(self)@, caller@, deposit_id, now) {
                Ok(post) => if keys.token_program@ == token_program_id() {
                    &&& final(self)@ == post
                    &&& r matches Ok(s)
                    &&& stages(
                        s,
                        transfer_of(
                            *keys,
                            *vault_key,
                            TransferAuthority::Vault,
                            amount_of(old(self)@, deposit_id),
                        ),
                    )
                } else {
                    &&& final(self)@ == old(self)@
                    &&& r == Err::<Staged, ProcessError>(ProcessError::Host(HostError::IncorrectProgramId))
                },
                Err(e) => final(self)@ == old(self)@ && r == Err::<Staged, ProcessError>(e),
            },
    {
        if self.reentrancy_guard {
            return Err(ProcessError::Vault(VaultError::ReentrancyDetected));
        }
        let i = match self.find_deposit(deposit_id) {
            Some(i) => i,
            None => {
                return Err(ProcessError::Vault(VaultError::DepositNotFound));
            },
        };
        let d = self.deposits[i];
        if !d.depositor.same(&caller) {
            return Err(ProcessError::Vault(VaultError::UnauthorizedWithdrawal));
        }
        if d.withdrawn {
            return Err(ProcessError::Vault(VaultError::AlreadyWithdrawn));
        }
        let now = match now {
            Some(t) => t,
            None => {
                return Err(ProcessError::Host(HostError::InvalidArgument));
            },
        };
        if d.unlock_time > now {
            return Err(ProcessError::Vault(VaultError::UnlockTimeNotReached));
        }
        let instruction = match transfer_instruction(
            &keys.token_program,
            &keys.source,
            &keys.destination,
            vault_key,
            d.amount,
        ) {
            Ok(ix) => ix,
            Err(e) => {
                return Err(ProcessError::Host(e));
            },
        };
        self.stage_withdrawal(i);
        let transfer = Transfer {
            token_program: keys.token_program,
            source: keys.source,
            destination: keys.destination,
            authority: *vault_key,
            authority_kind: TransferAuthority::Vault,
            amount: d.amount,
        };
        Ok(Staged { transfer, instruction })
    }

    /// Stages the withdrawal of deposit `deposit_id` by the emergency
    /// authority `caller`, who names the deposit's `depositor`; the unlock
    /// time does not apply. On failure the vault is left as it was.
    ///
    /// No operation sets `emergency_authority`: a vault made by `create` has
    /// none, so this path succeeds only on a vault whose authority was
    /// provided by other means.
    pub fn begin_emergency_withdraw(
        &mut self,
        caller: Pubkey,
        depositor: Pubkey,
        deposit_id: u64,
        vault_key: &Pubkey,
        keys: &TransferKeys,
    ) -> (r: Result<Staged, ProcessError>)
        ensures
            match emergency_withdraw_result(old(self)@, caller@, depositor@, deposit_id) {
                Ok(post) => if keys.token_program@ == token_program_id() {
                    &&& final(self)@ == post
                    &&& r matches Ok(s)
                    &&& stages(
                        s,
                        transfer_of(
                            *keys,
                            *vault_key,
                            TransferAuthority::Vault,
                            amount_of(old(self)@, deposit_id),
                        ),
                    )
                } else {
                    &&& final(self)@ == old(self)@
                    &&& r == Err::<Staged, ProcessError>(ProcessError::Host(HostError::IncorrectProgramId))
                },
                Err(e) => final(self)@ == old(self)@ && r == Err::<Staged, ProcessError>(
                    ProcessError::Vault(e),
                ),
            },
    {
        if self.reentrancy_guard {
            return Err(ProcessError::Vault(VaultError::ReentrancyDetected));
        }
        match &self.emergency_authority {
            None => {
                return Err(ProcessError::Vault(VaultError::UnauthorizedWithdrawal));
            },
            Some(authority) => {
                if !authority.same(&caller) {
                    return Err(ProcessError::Vault(VaultError::UnauthorizedWithdrawal));
                }
            },
        }
        let i = match self.find_deposit(deposit_id) {
            Some(i) => i,
            None => {
                return Err(ProcessError::Vault(VaultError::DepositNotFound));
            },
        };
        let d = self.deposits[i];
        if d.withdrawn {
            return Err(ProcessError::Vault(VaultError::AlreadyWithdrawn));
        }
        if !d.depositor.same(&depositor) {
            return Err(ProcessError::Vault(VaultError::UnauthorizedWithdrawal));
        }
        let instruction = match transfer_instruction(
            &keys.token_program,
            &keys.source,
            &keys.destination,
            vault_key,
            d.amount,
        ) {
            Ok(ix) => ix,
            Err(e) => {
                return Err(ProcessError::Host(e));
            },
        };
        self.stage_withdrawal(i);
        let transfer = Transfer {
            token_program: keys.token_program,
            source: keys.source,
            destination: keys.destination,
            authority: *vault_key,
            authority_kind: TransferAuthority::Vault,
            amount: d.amount,
        };
        Ok(Staged { transfer, instruction })
    }
}

} // verus!
