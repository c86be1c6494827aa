use crate::bytes::{le_bytes, le_nat};
use crate::types::{HostError, Pubkey};
use solana_program::instruction::AccountMeta;
use solana_program::program_pack::Pack;
use solana_program::pubkey::Pubkey as SolanaKey;
use vstd::prelude::*;

verus! {

/// The two facts a token balance record holds that the vault reads.
#[derive(Clone, Copy, Debug, PartialEq, Eq)]
pub struct TokenBalance {
    pub mint: Pubkey,
    pub amount: u64,
}

/// Whether the four-byte option tag at `at` is `None` or `Some`.
pub open spec fn option_tag_valid(s: Seq<u8>, at: int) -> bool {
    &&& s[at] == 0 || s[at] == 1
    &&& s[at + 1] == 0
    &&& s[at + 2] == 0
    &&& s[at + 3] == 0
}

/// Whether `s` is a 165-byte token account record whose fields all decode:
/// three option tags (delegate, native reserve, close authority) and a state
/// byte of uninitialized, initialized or frozen.
pub open spec fn token_record_decodes(s: Seq<u8>) -> bool {
    &&& s.len() == 165
    &&& option_tag_valid(s, 72)
    &&& s[108] <= 2
    &&& option_tag_valid(s, 109)
    &&& option_tag_valid(s, 129)
}

/// The outcome of reading a token account record: its mint (bytes 0..32)
/// and balance (little-endian bytes 64..72), once it decodes and its state
/// is other than uninitialized.
pub open spec fn token_balance_of(s: Seq<u8>) -> Result<(Seq<u8>, nat), HostError> {
    if !token_record_decodes(s) {
        Err(HostError::InvalidAccountData)
    } else if s[108] == 0 {
        Err(HostError::UninitializedAccount)
    } else {
        Ok((s.subrange(0, 32), le_nat(s.subrange(64, 72))))
    }
}

/// Relies on spl_token's `Account::unpack`: it refuses a record whose length
/// is not 165 or whose option tags or state byte do not decode
/// (`InvalidAccountData`), refuses an uninitialized one
/// (`UninitializedAccount`), and otherwise takes the mint from bytes 0..32 and
/// the amount from little-endian bytes 64..72.
#[verifier::external_body]
pub(crate) fn unpack_token_balance(data: &[u8]) -> (r: Result<TokenBalance, HostError>)
    ensures
        match r {
            Ok(b) => token_balance_of(data@) == Ok::<(Seq<u8>, nat), HostError>(
                (b.mint@, b.amount as nat),
            ),
            Err(e) => token_balance_of(data@) == Err::<(Seq<u8>, nat), HostError>(e),
        },
{
    match spl_token::state::Account::unpack(data) {
        Ok(a) => Ok(TokenBalance { mint: Pubkey { bytes: a.mint.to_bytes() }, amount: a.amount }),
        Err(solana_program::program_error::ProgramError::UninitializedAccount) => Err(
            HostError::UninitializedAccount,
        ),
        Err(_) => Err(HostError::InvalidAccountData),
    }
}

/// An account that an instruction names, and how it may use it.
#[derive(Clone, Copy, Debug, PartialEq, Eq)]
pub struct AccountRef {
    pub key: Pubkey,
    pub is_signer: bool,
    pub is_writable: bool,
}

/// A ledger-service instruction as plain values, handed to the host to run.
#[derive(Clone, Debug)]
pub struct LedgerInstruction {
    pub program_id: Pubkey,
    pub accounts: Vec<AccountRef>,
    pub data: Vec<u8>,
}

/// Whether `ix` is the token program's Transfer: tag byte 3 and the eight
/// little-endian bytes of `amount`, naming `source` and `destination`
/// (writable) and `authority` (signing, read-only).
pub open spec fn is_token_transfer(
    ix: LedgerInstruction,
    token_program: Pubkey,
    source: Pubkey,
    destination: Pubkey,
    authority: Pubkey,
    amount: u64,
) -> bool {
    &&& ix.program_id == token_program
    &&& ix.data@ == seq![3u8] + le_bytes(amount as nat, 8)
    &&& ix.accounts@ == seq![
        AccountRef { key: source, is_signer: false, is_writable: true },
        AccountRef { key: destination, is_signer: false, is_writable: true },
        AccountRef { key: authority, is_signer: true, is_writable: false },
    ]
}

/// The identity of the token program that keeps the balances.
pub open spec fn token_program_id() -> Seq<u8> {
    seq![
        6u8, 221, 246, 225, 215, 101, 161, 147, 217, 203, 225, 70, 206, 235, 121, 172, 28, 180,
        133, 237, 95, 91, 55, 145, 58, 140, 245, 133, 126, 255, 0, 169,
    ]
}

/// Relies on spl_token's `instruction::transfer` with no multisig signers:
/// it refuses any token program but its own (`IncorrectProgramId`, from
/// `check_program_account`) and otherwise builds the Transfer instruction:
/// data `TokenInstruction::Transfer { amount }.pack()` (tag 3, then the
/// amount's little-endian bytes), accounts `AccountMeta::new(source, false)`,
/// `AccountMeta::new(destination, false)` and
/// `AccountMeta::new_readonly(authority, true)`.
#[verifier::external_body]
pub(crate) fn transfer_instruction(
    token_program: &Pubkey,
    source: &Pubkey,
    destination: &Pubkey,
    authority: &Pubkey,
    amount: u64,
) -> (r: Result<LedgerInstruction, HostError>)
    ensures
        r is Ok <==> token_program@ == token_program_id(),
        r matches Ok(ix) ==> is_token_transfer(
            ix,
            *token_program,
            *source,
            *destination,
            *authority,
            amount,
        ),
        r matches Err(e) ==> e == HostError::IncorrectProgramId,
{
    let key = |k: &Pubkey| SolanaKey::new_from_array(k.bytes);
    let ix = spl_token::instruction::transfer(
        &key(token_program), &key(source), &key(destination), &key(authority), &[], amount,
    ).map_err(|_| HostError::IncorrectProgramId)?;
    let meta = |m: &AccountMeta| AccountRef {
        key: Pubkey { bytes: m.pubkey.to_bytes() }, is_signer: m.is_signer, is_writable: m.is_writable,
    };
    let accounts = ix.accounts.iter().map(meta).collect();
    Ok(LedgerInstruction { program_id: Pubkey { bytes: ix.program_id.to_bytes() }, accounts, data: ix.data })
}

} // verus!
