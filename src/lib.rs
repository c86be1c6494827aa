//! A custodial, time-locked token vault: the vault's ledger, its stored form,
//! the request format, and the state machine of its four operations, with
//! their contracts and the laws they obey.

pub mod bytes;
pub mod codec;
pub mod instruction;
pub mod laws;
pub mod token;
pub mod types;
pub mod vault;

pub use instruction::VaultInstruction;
pub use types::{Deposit, HostError, ProcessError, Pubkey, Vault, VaultError};
pub use token::{AccountRef, LedgerInstruction};
pub use vault::{check_accounts, Staged, Transfer, TransferAuthority, TransferKeys};
