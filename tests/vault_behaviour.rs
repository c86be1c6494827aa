use time_locked_vault::{
    check_accounts, Deposit, HostError, ProcessError, Pubkey, TransferAuthority, TransferKeys,
    Vault, VaultError, VaultInstruction,
};

const TOKEN_PROGRAM: [u8; 32] = [
    6, 221, 246, 225, 215, 101, 161, 147, 217, 203, 225, 70, 206, 235, 121, 172, 28, 180, 133,
    237, 95, 91, 55, 145, 58, 140, 245, 133, 126, 255, 0, 169,
];

fn key(n: u8) -> Pubkey {
    let mut bytes = [0u8; 32];
    bytes[0] = n;
    bytes[17] = 0xa5;
    Pubkey { bytes }
}

fn owner() -> Pubkey {
    key(2)
}
fn depositor() -> Pubkey {
    key(3)
}
fn vault_key() -> Pubkey {
    key(4)
}
fn mint() -> Pubkey {
    key(9)
}

fn keys() -> TransferKeys {
    TransferKeys { token_program: Pubkey { bytes: TOKEN_PROGRAM }, source: key(5), destination: key(6) }
}

fn token_record(mint: &Pubkey, amount: u64) -> Vec<u8> {
    let mut data = vec![0u8; 165];
    data[0..32].copy_from_slice(&mint.bytes);
    data[32..64].copy_from_slice(&depositor().bytes);
    data[64..72].copy_from_slice(&amount.to_le_bytes());
    data[108] = 1;
    data
}

fn fresh() -> Vault {
    Vault::create(owner(), &[0u8; 64]).unwrap()
}

fn rent_tag() -> [u8; 32] {
    let mut tag = [0u8; 32];
    tag[..4].copy_from_slice(b"Rent");
    tag
}

fn deposit(vault: &mut Vault, amount: u64, unlock_time: i64, now: i64) -> Result<(), ProcessError> {
    let record = token_record(&mint(), 1_000);
    let staged = vault.begin_deposit(depositor(), amount, unlock_time, rent_tag(), Some(now), &record, &keys())?;
    assert_eq!(staged.transfer.amount, amount);
    assert_eq!(staged.transfer.authority_kind, TransferAuthority::Depositor);
    vault.commit();
    Ok(())
}

fn same_state(a: &Vault, b: &Vault) -> bool {
    a.encode() == b.encode()
}

#[test]
fn ids_follow_call_order() {
    let mut vault = fresh();
    for k in 0..5u64 {
        deposit(&mut vault, 10 + k, 500, 100).unwrap();
        assert!(!vault.reentrancy_guard);
    }
    assert_eq!(vault.deposit_count, 5);
    for (k, d) in vault.deposits.iter().enumerate() {
        assert_eq!(d.id, k as u64);
        assert_eq!(d.amount, 10 + k as u64);
        assert_eq!(d.depositor, depositor());
        assert_eq!(d.token_mint, mint());
        assert_eq!(d.created_at, 100);
        assert_eq!(d.tag, rent_tag());
    }
}

#[test]
fn ledger_length_never_decreases() {
    let mut vault = fresh();
    deposit(&mut vault, 10, 200, 100).unwrap();
    deposit(&mut vault, 20, 200, 100).unwrap();
    let before = vault.deposits.len();
    assert!(vault.begin_withdraw(depositor(), 0, Some(300), &vault_key(), &keys()).is_ok());
    vault.commit();
    assert_eq!(vault.deposits.len(), before);
    assert!(vault.begin_withdraw(depositor(), 0, Some(300), &vault_key(), &keys()).is_err());
    assert_eq!(vault.deposits.len(), before);
    assert!(deposit(&mut vault, 0, 200, 100).is_err());
    assert_eq!(vault.deposits.len(), before);
}

#[test]
fn rent_scenario() {
    let now = 1_000;
    let mut vault = fresh();
    deposit(&mut vault, 100, now + 100, now).unwrap();
    assert_eq!(vault.deposits[0].id, 0);

    let early = vault.begin_withdraw(depositor(), 0, Some(now + 50), &vault_key(), &keys());
    assert!(matches!(early, Err(ProcessError::Vault(VaultError::UnlockTimeNotReached))));

    let staged = vault.begin_withdraw(depositor(), 0, Some(now + 150), &vault_key(), &keys()).unwrap();
    assert_eq!(staged.transfer.amount, 100);
    assert_eq!(staged.transfer.authority_kind, TransferAuthority::Vault);
    assert_eq!(staged.instruction.program_id.bytes, TOKEN_PROGRAM);
    assert_eq!(staged.instruction.data[0], 3);
    assert_eq!(staged.instruction.data[1..9], 100u64.to_le_bytes());
    assert_eq!(staged.instruction.accounts[2].key.bytes, vault_key().bytes);
    vault.commit();
    assert!(vault.deposits[0].withdrawn);

    let again = vault.begin_withdraw(depositor(), 0, Some(now + 150), &vault_key(), &keys());
    assert!(matches!(again, Err(ProcessError::Vault(VaultError::AlreadyWithdrawn))));
}

#[test]
fn emergency_then_withdraw_is_refused() {
    let authority = key(8);
    let mut vault = fresh();
    vault.emergency_authority = Some(authority);
    deposit(&mut vault, 70, 10_000, 100).unwrap();
    let staged = vault.begin_emergency_withdraw(authority, depositor(), 0, &vault_key(), &keys()).unwrap();
    assert_eq!(staged.transfer.amount, 70);
    vault.commit();
    let second = vault.begin_withdraw(depositor(), 0, Some(20_000), &vault_key(), &keys());
    assert!(matches!(second, Err(ProcessError::Vault(VaultError::AlreadyWithdrawn))));
    let third = vault.begin_emergency_withdraw(authority, depositor(), 0, &vault_key(), &keys());
    assert!(matches!(third, Err(ProcessError::Vault(VaultError::AlreadyWithdrawn))));
}

#[test]
fn emergency_checks() {
    let authority = key(8);
    let mut vault = fresh();
    deposit(&mut vault, 70, 10_000, 100).unwrap();
    let none = vault.begin_emergency_withdraw(authority, depositor(), 0, &vault_key(), &keys());
    assert!(matches!(none, Err(ProcessError::Vault(VaultError::UnauthorizedWithdrawal))));
    vault.emergency_authority = Some(authority);
    let other = vault.begin_emergency_withdraw(key(40), depositor(), 0, &vault_key(), &keys());
    assert!(matches!(other, Err(ProcessError::Vault(VaultError::UnauthorizedWithdrawal))));
    let wrong_depositor = vault.begin_emergency_withdraw(authority, key(41), 0, &vault_key(), &keys());
    assert!(matches!(wrong_depositor, Err(ProcessError::Vault(VaultError::UnauthorizedWithdrawal))));
    let missing = vault.begin_emergency_withdraw(authority, depositor(), 7, &vault_key(), &keys());
    assert!(matches!(missing, Err(ProcessError::Vault(VaultError::DepositNotFound))));
}

#[test]
fn time_lock_boundary() {
    let mut vault = fresh();
    deposit(&mut vault, 5, 200, 100).unwrap();
    for now in [i64::MIN, 0, 199] {
        let r = vault.begin_withdraw(depositor(), 0, Some(now), &vault_key(), &keys());
        assert!(matches!(r, Err(ProcessError::Vault(VaultError::UnlockTimeNotReached))));
    }
    let mut at_unlock = vault.clone();
    assert!(at_unlock.begin_withdraw(depositor(), 0, Some(200), &vault_key(), &keys()).is_ok());
    let mut later = vault.clone();
    assert!(later.begin_withdraw(depositor(), 0, Some(i64::MAX), &vault_key(), &keys()).is_ok());
}

#[test]
fn owner_cannot_withdraw_a_depositors_funds() {
    let mut vault = fresh();
    deposit(&mut vault, 5, 200, 100).unwrap();
    let r = vault.begin_withdraw(owner(), 0, Some(300), &vault_key(), &keys());
    assert!(matches!(r, Err(ProcessError::Vault(VaultError::UnauthorizedWithdrawal))));
    assert!(!vault.deposits[0].withdrawn);
}

#[test]
fn failed_deposit_leaves_state_unchanged() {
    let mut vault = fresh();
    deposit(&mut vault, 5, 200, 100).unwrap();
    let before = vault.clone();
    let poor = token_record(&mint(), 3);
    let r = vault.begin_deposit(depositor(), 4, 300, [0; 32], Some(100), &poor, &keys());
    assert!(matches!(r, Err(ProcessError::Vault(VaultError::InsufficientFunds))));
    assert!(!vault.reentrancy_guard);
    assert!(same_state(&vault, &before));
}

#[test]
fn counter_overflow_refused() {
    let mut vault = fresh();
    vault.deposit_count = u64::MAX;
    let before = vault.clone();
    let record = token_record(&mint(), 1_000);
    let r = vault.begin_deposit(depositor(), 4, 300, [0; 32], Some(100), &record, &keys());
    assert!(matches!(r, Err(ProcessError::Vault(VaultError::MathOverflow))));
    assert!(same_state(&vault, &before));
}

#[test]
fn deposit_validation_errors() {
    let mut vault = fresh();
    let record = token_record(&mint(), 1_000);
    let zero = vault.begin_deposit(depositor(), 0, 300, [0; 32], Some(100), &record, &keys());
    assert!(matches!(zero, Err(ProcessError::Vault(VaultError::InvalidAmount))));
    let past = vault.begin_deposit(depositor(), 1, 100, [0; 32], Some(100), &record, &keys());
    assert!(matches!(past, Err(ProcessError::Vault(VaultError::InvalidUnlockTime))));
    let short = vault.begin_deposit(depositor(), 1, 300, [0; 32], Some(100), &record[..100], &keys());
    assert!(matches!(short, Err(ProcessError::Host(HostError::InvalidAccountData))));
    let mut bad_state = record.clone();
    bad_state[108] = 3;
    let r = vault.begin_deposit(depositor(), 1, 300, [0; 32], Some(100), &bad_state, &keys());
    assert!(matches!(r, Err(ProcessError::Host(HostError::InvalidAccountData))));
    let uninit = vault.begin_deposit(depositor(), 1, 300, [0; 32], Some(100), &[0u8; 165], &keys());
    assert!(matches!(uninit, Err(ProcessError::Host(HostError::UninitializedAccount))));
    let mut wrong_program = keys();
    wrong_program.token_program = key(77);
    let r = vault.begin_deposit(depositor(), 1, 300, [0; 32], Some(100), &record, &wrong_program);
    assert!(matches!(r, Err(ProcessError::Host(HostError::IncorrectProgramId))));
    assert_eq!(vault.deposits.len(), 0);
    assert!(!vault.reentrancy_guard);
}

#[test]
fn deposit_records_the_mint_read_from_the_balance() {
    let mut vault = fresh();
    let other_mint = key(99);
    let record = token_record(&other_mint, 50);
    let staged = vault.begin_deposit(depositor(), 50, 300, [0; 32], Some(100), &record, &keys()).unwrap();
    assert_eq!(staged.instruction.accounts[2].key.bytes, depositor().bytes);
    assert_eq!(vault.deposits[0].token_mint, other_mint);
    assert_ne!(vault.deposits[0].token_mint, depositor());
}

#[test]
fn reentry_is_detected_while_staged() {
    let mut vault = fresh();
    deposit(&mut vault, 5, 200, 100).unwrap();
    let record = token_record(&mint(), 1_000);
    vault.begin_deposit(depositor(), 6, 300, [0; 32], Some(100), &record, &keys()).unwrap();
    assert!(vault.reentrancy_guard);
    let inner = vault.begin_withdraw(depositor(), 0, Some(300), &vault_key(), &keys());
    assert!(matches!(inner, Err(ProcessError::Vault(VaultError::ReentrancyDetected))));
    let inner = vault.begin_deposit(depositor(), 6, 300, [0; 32], Some(100), &record, &keys());
    assert!(matches!(inner, Err(ProcessError::Vault(VaultError::ReentrancyDetected))));
    vault.emergency_authority = Some(key(8));
    let inner = vault.begin_emergency_withdraw(key(8), depositor(), 0, &vault_key(), &keys());
    assert!(matches!(inner, Err(ProcessError::Vault(VaultError::ReentrancyDetected))));
    vault.commit();
    assert!(!vault.reentrancy_guard);
}

#[test]
fn missing_deposit_is_not_found() {
    let mut vault = fresh();
    let r = vault.begin_withdraw(depositor(), 0, Some(300), &vault_key(), &keys());
    assert!(matches!(r, Err(ProcessError::Vault(VaultError::DepositNotFound))));
    assert_eq!(vault.find_deposit(0), None);
}

#[test]
fn create_refuses_used_storage() {
    let mut data = vec![0u8; 10];
    assert!(Vault::create(owner(), &data).is_ok());
    assert!(Vault::create(owner(), &[]).is_ok());
    data[9] = 1;
    assert_eq!(
        Vault::create(owner(), &data).unwrap_err(),
        ProcessError::Vault(VaultError::AccountAlreadyInUse)
    );
}

#[test]
fn vault_is_created_only_once() {
    let zero = Pubkey { bytes: [0; 32] };
    assert_eq!(
        Vault::create(zero, &[0u8; 100]).unwrap_err(),
        ProcessError::Host(HostError::MissingRequiredSignature)
    );
    let first = Vault::create(owner(), &[0u8; 100]).unwrap();
    let mut storage = vec![0u8; 100];
    let bytes = first.encode();
    storage[..bytes.len()].copy_from_slice(&bytes);
    assert_eq!(
        Vault::create(key(50), &storage).unwrap_err(),
        ProcessError::Vault(VaultError::AccountAlreadyInUse)
    );
    assert_eq!(
        Vault::create(owner(), &bytes).unwrap_err(),
        ProcessError::Vault(VaultError::AccountAlreadyInUse)
    );
}

#[test]
fn unreadable_clock_is_reported_where_time_is_needed() {
    let mut vault = fresh();
    let record = token_record(&mint(), 1_000);
    let zero = vault.begin_deposit(depositor(), 0, 300, [0; 32], None, &record, &keys());
    assert!(matches!(zero, Err(ProcessError::Vault(VaultError::InvalidAmount))));
    let r = vault.begin_deposit(depositor(), 5, 300, [0; 32], None, &record, &keys());
    assert!(matches!(r, Err(ProcessError::Host(HostError::InvalidArgument))));
    deposit(&mut vault, 5, 200, 100).unwrap();
    let stranger = vault.begin_withdraw(key(60), 0, None, &vault_key(), &keys());
    assert!(matches!(stranger, Err(ProcessError::Vault(VaultError::UnauthorizedWithdrawal))));
    let r = vault.begin_withdraw(depositor(), 0, None, &vault_key(), &keys());
    assert!(matches!(r, Err(ProcessError::Host(HostError::InvalidArgument))));
    assert!(!vault.reentrancy_guard);
}

#[test]
fn failed_transfer_leaves_state_as_before() {
    let mut vault = fresh();
    deposit(&mut vault, 5, 200, 100).unwrap();
    let before = vault.clone();
    vault.begin_withdraw(depositor(), 0, Some(300), &vault_key(), &keys()).unwrap();
    let rolled_back = vault.clone().conclude(before.clone(), false);
    assert!(same_state(&rolled_back, &before));
    assert!(!rolled_back.deposits[0].withdrawn);
    let done = vault.conclude(before, true);
    assert!(done.deposits[0].withdrawn);
    assert!(!done.reentrancy_guard);
}

#[test]
fn deposit_instruction_moves_funds_into_custody() {
    let mut vault = fresh();
    let record = token_record(&mint(), 500);
    let staged = vault.begin_deposit(depositor(), 120, 300, [0; 32], Some(100), &record, &keys()).unwrap();
    let t = staged.transfer;
    assert_eq!((t.source, t.destination, t.authority, t.amount), (key(5), key(6), depositor(), 120));
    let ix = staged.instruction;
    assert_eq!(ix.program_id.bytes, TOKEN_PROGRAM);
    assert_eq!(ix.data[0], 3);
    assert_eq!(ix.data[1..], 120u64.to_le_bytes());
    assert_eq!(ix.accounts.len(), 3);
    assert_eq!((ix.accounts[0].key, ix.accounts[0].is_writable, ix.accounts[0].is_signer), (key(5), true, false));
    assert_eq!((ix.accounts[1].key, ix.accounts[1].is_writable, ix.accounts[1].is_signer), (key(6), true, false));
    assert_eq!((ix.accounts[2].key, ix.accounts[2].is_writable, ix.accounts[2].is_signer), (depositor(), false, true));
}

#[test]
fn host_checks() {
    assert_eq!(check_accounts(false, &key(1), &key(1)), Err(HostError::MissingRequiredSignature));
    assert_eq!(check_accounts(true, &key(2), &key(1)), Err(HostError::IncorrectProgramId));
    assert_eq!(check_accounts(true, &key(1), &key(1)), Ok(()));
}

#[test]
fn error_codes_are_stable() {
    let all = [
        VaultError::UnlockTimeNotReached,
        VaultError::UnauthorizedWithdrawal,
        VaultError::DepositNotFound,
        VaultError::InvalidAmount,
        VaultError::AlreadyWithdrawn,
        VaultError::InvalidUnlockTime,
        VaultError::ReentrancyDetected,
        VaultError::InvalidInstructionData,
        VaultError::AccountAlreadyInUse,
        VaultError::InsufficientFunds,
        VaultError::MathOverflow,
    ];
    for (k, e) in all.iter().enumerate() {
        assert_eq!(e.code(), k as u32);
    }
}

#[test]
fn instruction_wire_form() {
    assert_eq!(VaultInstruction::Withdraw { deposit_id: 5 }.pack(), vec![2, 5, 0, 0, 0, 0, 0, 0, 0]);
    assert_eq!(
        VaultInstruction::EmergencyWithdraw { deposit_id: 0x0102 }.pack(),
        vec![3, 2, 1, 0, 0, 0, 0, 0, 0]
    );
    let d = VaultInstruction::Deposit { amount: 100, unlock_time: -2, tag: rent_tag() };
    let bytes = d.pack();
    assert_eq!(bytes.len(), 49);
    assert_eq!(bytes[1..9], 100u64.to_le_bytes());
    assert_eq!(bytes[9..17], (-2i64).to_le_bytes());
    assert_eq!(&bytes[17..21], b"Rent");
    assert_eq!(VaultInstruction::unpack(&bytes), Ok(d));
    assert_eq!(VaultInstruction::unpack(&[0]), Ok(VaultInstruction::CreateVault));
}

#[test]
fn malformed_instructions_are_refused() {
    let bad: [&[u8]; 5] = [&[], &[4], &[0, 0], &[2, 1, 0, 0], &[1; 48]];
    for data in bad {
        assert_eq!(VaultInstruction::unpack(data), Err(VaultError::InvalidInstructionData));
    }
}

#[test]
fn stored_vault_round_trip() {
    let mut vault = fresh();
    vault.emergency_authority = Some(key(8));
    deposit(&mut vault, 100, 200, -5).unwrap();
    deposit(&mut vault, 7, i64::MAX, 100).unwrap();
    vault.begin_withdraw(depositor(), 0, Some(300), &vault_key(), &keys()).unwrap();
    let bytes = vault.encode();
    assert_eq!(bytes.len(), 46 + 2 * 129 + 32);
    let mut padded = bytes.clone();
    padded.extend_from_slice(&[9u8; 40]);
    let back = Vault::decode(&padded).unwrap();
    assert_eq!(back.owner, vault.owner);
    assert_eq!(back.deposit_count, 2);
    assert_eq!(back.deposits, vault.deposits);
    assert!(back.reentrancy_guard);
    assert_eq!(back.emergency_authority, Some(key(8)));
    assert_eq!(back.deposits[0].created_at, -5);
}

#[test]
fn stored_vault_layout() {
    let mut vault = fresh();
    vault.deposits.push(Deposit {
        id: 0,
        depositor: depositor(),
        token_mint: mint(),
        amount: 258,
        unlock_time: 9,
        withdrawn: true,
        tag: rent_tag(),
        created_at: 1,
    });
    vault.deposit_count = 1;
    let bytes = vault.encode();
    assert_eq!(bytes[0..32], owner().bytes);
    assert_eq!(bytes[32..40], 1u64.to_le_bytes());
    assert_eq!(bytes[40..44], 1u32.to_le_bytes());
    assert_eq!(bytes[44 + 72..44 + 80], 258u64.to_le_bytes());
    assert_eq!(bytes[44 + 88], 1);
    assert_eq!(bytes[173], 0);
    assert_eq!(bytes[174], 0);
    assert_eq!(bytes.len(), 175);
}

#[test]
fn damaged_storage_is_refused() {
    let mut vault = fresh();
    deposit(&mut vault, 100, 200, 100).unwrap();
    let bytes = vault.encode();
    assert_eq!(Vault::decode(&bytes[..bytes.len() - 1]).unwrap_err(), HostError::InvalidAccountData);
    assert_eq!(Vault::decode(&bytes[..20]).unwrap_err(), HostError::InvalidAccountData);
    let mut flag = bytes.clone();
    flag[44 + 88] = 2;
    assert_eq!(Vault::decode(&flag).unwrap_err(), HostError::InvalidAccountData);
    let mut authority = bytes.clone();
    let last = authority.len() - 1;
    authority[last] = 1;
    assert_eq!(Vault::decode(&authority).unwrap_err(), HostError::InvalidAccountData);
}
