use vstd::prelude::*;

verus! {

/// A 32-byte account identity.
#[derive(Clone, Copy, Debug, PartialEq, Eq)]
pub struct Pubkey {
    pub bytes: [u8; 32],
}

impl View for Pubkey {
    type V = Seq<u8>;

    open spec fn view(&self) -> Seq<u8> {
        self.bytes@
    }
}

impl Pubkey {
    /// Whether two identities are the same, byte for byte.
    pub fn same(&self, other: &Pubkey) -> (r: bool)
        ensures
            r == (self@ == other@),
    {
        let mut i: usize = 0;
        while i < 32
            invariant
                0 <= i <= 32,
                self@.len() == 32,
                other@.len() == 32,
                forall|j: int| 0 <= j < i ==> self@[j] == other@[j],
            decreases 32 - i,
        {
            if self.bytes[i] != other.bytes[i] {
                return false;
            }
            i = i + 1;
        }
        assert(self@ =~= other@);
        true
    }
}

/// The vault's own failures; each has a stable code (see `code`).
#[derive(Clone, Copy, Debug, PartialEq, Eq, Structural)]
pub enum VaultError {
    UnlockTimeNotReached,
    UnauthorizedWithdrawal,
    DepositNotFound,
    InvalidAmount,
    AlreadyWithdrawn,
    InvalidUnlockTime,
    ReentrancyDetected,
    InvalidInstructionData,
    AccountAlreadyInUse,
    InsufficientFunds,
    MathOverflow,
}

impl VaultError {
    /// The stable code of each error: its position in the enumeration.
    pub open spec fn spec_code(self) -> u32 {
        match self {
            VaultError::UnlockTimeNotReached => 0,
            VaultError::UnauthorizedWithdrawal => 1,
            VaultError::DepositNotFound => 2,
            VaultError::InvalidAmount => 3,
            VaultError::AlreadyWithdrawn => 4,
            VaultError::InvalidUnlockTime => 5,
            VaultError::ReentrancyDetected => 6,
            VaultError::InvalidInstructionData => 7,
            VaultError::AccountAlreadyInUse => 8,
            VaultError::InsufficientFunds => 9,
            VaultError::MathOverflow => 10,
        }
    }

    pub fn code(&self) -> (r: u32)
        ensures
            r == self.spec_code(),
    {
        match self {
            VaultError::UnlockTimeNotReached => 0,
            VaultError::UnauthorizedWithdrawal => 1,
            VaultError::DepositNotFound => 2,
            VaultError::InvalidAmount => 3,
            VaultError::AlreadyWithdrawn => 4,
            VaultError::InvalidUnlockTime => 5,
            VaultError::ReentrancyDetected => 6,
            VaultError::InvalidInstructionData => 7,
            VaultError::AccountAlreadyInUse => 8,
            VaultError::InsufficientFunds => 9,
            VaultError::MathOverflow => 10,
        }
    }
}

/// Failures that the host's account model raises before or around the
/// vault's own checks.
#[derive(Clone, Copy, Debug, PartialEq, Eq, Structural)]
pub enum HostError {
    MissingRequiredSignature,
    IncorrectProgramId,
    InvalidAccountData,
    UninitializedAccount,
    /// The time source could not be read.
    InvalidArgument,
}

/// What a handler can fail with.
#[derive(Clone, Copy, Debug, PartialEq, Eq, Structural)]
pub enum ProcessError {
    Host(HostError),
    Vault(VaultError),
}

/// One time-locked unit of custody.
#[derive(Clone, Copy, Debug, PartialEq, Eq)]
pub struct Deposit {
    pub id: u64,
    pub depositor: Pubkey,
    pub token_mint: Pubkey,
    pub amount: u64,
    pub unlock_time: i64,
    pub withdrawn: bool,
    pub tag: [u8; 32],
    pub created_at: i64,
}

/// A deposit with its identities and tag as byte strings.
pub struct DepositView {
    pub id: u64,
    pub depositor: Seq<u8>,
    pub token_mint: Seq<u8>,
    pub amount: u64,
    pub unlock_time: i64,
    pub withdrawn: bool,
    pub tag: Seq<u8>,
    pub created_at: i64,
}

impl DepositView {
    /// The record's lifetime invariants.
    pub open spec fn wf(self) -> bool {
        self.amount > 0 && self.unlock_time > self.created_at
    }
}

impl View for Deposit {
    type V = DepositView;

    open spec fn view(&self) -> DepositView {
        DepositView {
            id: self.id,
            depositor: self.depositor@,
            token_mint: self.token_mint@,
            amount: self.amount,
            unlock_time: self.unlock_time,
            withdrawn: self.withdrawn,
            tag: self.tag@,
            created_at: self.created_at,
        }
    }
}

/// The persisted ledger record of one custody relationship.
#[derive(Clone, Debug)]
pub struct Vault {
    pub owner: Pubkey,
    pub deposit_count: u64,
    pub deposits: Vec<Deposit>,
    pub reentrancy_guard: bool,
    /// Allowed to withdraw without regard to unlock times. Open gap: no
    /// operation of the vault ever sets it, so it stays absent unless
    /// provided by other means.
    pub emergency_authority: Option<Pubkey>,
}

/// The vault as a mathematical value.
pub struct VaultView {
    pub owner: Seq<u8>,
    pub deposit_count: u64,
    pub deposits: Seq<DepositView>,
    pub reentrancy_guard: bool,
    pub emergency_authority: Option<Seq<u8>>,
}

impl VaultView {
    /// Ids are positions in the list, the counter is the list's length, and
    /// each deposit keeps its own invariants.
    pub open spec fn wf(self) -> bool {
        &&& self.deposits.len() == self.deposit_count
        &&& forall|i: int|
            0 <= i < self.deposits.len() ==> (#[trigger] self.deposits[i]).id == i
                && self.deposits[i].wf()
    }
}

impl View for Vault {
    type V = VaultView;

    open spec fn view(&self) -> VaultView {
        VaultView {
            owner: self.owner@,
            deposit_count: self.deposit_count,
            deposits: self.deposits@.map_values(|d: Deposit| d@),
            reentrancy_guard: self.reentrancy_guard,
            emergency_authority: match self.emergency_authority {
                Some(k) => Some(k@),
                None => None,
            },
        }
    }
}

} // verus!
