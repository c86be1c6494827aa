use crate::bytes::{
    le_bytes, le_nat, lemma_le_nat_bound, lemma_le_round_trip, lemma_pow256_8, push_le,
    push_u64_le, read_le, read_u64_le,
};
use crate::types::{Deposit, DepositView, HostError, Pubkey, Vault, VaultView};
use vstd::prelude::*;

verus! {

/// A signed time stored as the eight bytes of its two's complement.
pub open spec fn i64_bytes(v: i64) -> Seq<u8> {
    le_bytes((#[verifier::truncate] (v as u64)) as nat, 8)
}

pub open spec fn bool_byte(b: bool) -> Seq<u8> {
    if b {
        seq![1u8]
    } else {
        seq![0u8]
    }
}

/// The stored form of a deposit: id, depositor, mint, amount, unlock time,
/// withdrawn flag, tag, creation time.
pub open spec fn deposit_bytes(d: DepositView) -> Seq<u8> {
    le_bytes(d.id as nat, 8) + d.depositor + d.token_mint + le_bytes(d.amount as nat, 8) + i64_bytes(
        d.unlock_time,
    ) + bool_byte(d.withdrawn) + d.tag + i64_bytes(d.created_at)
}

/// The deposit that a 129-byte record holds.
pub open spec fn deposit_of_record(r: Seq<u8>) -> DepositView {
    DepositView {
        id: le_nat(r.subrange(0, 8)) as u64,
        depositor: r.subrange(8, 40),
        token_mint: r.subrange(40, 72),
        amount: le_nat(r.subrange(72, 80)) as u64,
        unlock_time: le_nat(r.subrange(80, 88)) as i64,
        withdrawn: r[88] == 1,
        tag: r.subrange(89, 121),
        created_at: le_nat(r.subrange(121, 129)) as i64,
    }
}

/// The `k`-th deposit record of a stored vault.
pub open spec fn record_at(d: Seq<u8>, k: int) -> Seq<u8> {
    d.subrange(44 + 129 * k, 44 + 129 * k + 129)
}

/// The length of the deposit list that a stored vault announces.
pub open spec fn stored_list_len(d: Seq<u8>) -> nat {
    le_nat(d.subrange(40, 44))
}

/// Where the guard byte of a stored vault sits.
pub open spec fn trailer_at(d: Seq<u8>) -> int {
    44 + 129 * stored_list_len(d) as int
}

/// Whether `d` begins with a stored vault: every record present, each flag
/// byte 0 or 1, and the authority's 32 bytes present when it is flagged.
/// Bytes after the record are not read.
pub open spec fn vault_record_ok(d: Seq<u8>) -> bool {
    &&& d.len() >= 44
    &&& d.len() >= trailer_at(d) + 2
    &&& forall|k: int| 0 <= k < stored_list_len(d) ==> (#[trigger] record_at(d, k))[88] <= 1
    &&& d[trailer_at(d)] <= 1
    &&& d[trailer_at(d) + 1] <= 1
    &&& d[trailer_at(d) + 1] == 1 ==> d.len() >= trailer_at(d) + 34
}

/// The vault that a stored record holds.
pub open spec fn decoded_vault(d: Seq<u8>) -> VaultView {
    VaultView {
        owner: d.subrange(0, 32),
        deposit_count: le_nat(d.subrange(32, 40)) as u64,
        deposits: Seq::new(stored_list_len(d), |k: int| deposit_of_record(record_at(d, k))),
        reentrancy_guard: d[trailer_at(d)] == 1,
        emergency_authority: if d[trailer_at(d) + 1] == 1 {
            Some(d.subrange(trailer_at(d) + 2, trailer_at(d) + 34))
        } else {
            None
        },
    }
}

/// The length of the stored form of `v`.
pub open spec fn stored_len(v: VaultView) -> int {
    46 + 129 * v.deposits.len() + if v.emergency_authority is Some {
        32int
    } else {
        0
    }
}

proof fn lemma_i64_bytes(v: i64)
    ensures
        i64_bytes(v).len() == 8,
        le_nat(i64_bytes(v)) as i64 == v,
{
    let t: u64 = (#[verifier::truncate] (v as u64));
    lemma_pow256_8();
    lemma_le_round_trip(t as nat, 8);
    assert((#[verifier::truncate] (t as i64)) == v) by (bit_vector)
        requires
            t == (#[verifier::truncate] (v as u64)),
    ;
}

proof fn lemma_deposit_record(d: DepositView)
    requires
        d.depositor.len() == 32,
        d.token_mint.len() == 32,
        d.tag.len() == 32,
    ensures
        deposit_bytes(d).len() == 129,
        deposit_bytes(d)[88] <= 1,
        deposit_of_record(deposit_bytes(d)) == d,
{
    lemma_pow256_8();
    lemma_le_round_trip(d.id as nat, 8);
    lemma_le_round_trip(d.amount as nat, 8);
    lemma_i64_bytes(d.unlock_time);
    lemma_i64_bytes(d.created_at);
    let r = deposit_bytes(d);
    assert(r.subrange(0, 8) =~= le_bytes(d.id as nat, 8));
    assert(r.subrange(8, 40) =~= d.depositor);
    assert(r.subrange(40, 72) =~= d.token_mint);
    assert(r.subrange(72, 80) =~= le_bytes(d.amount as nat, 8));
    assert(r.subrange(80, 88) =~= i64_bytes(d.unlock_time));
    assert(r.subrange(89, 121) =~= d.tag);
    assert(r.subrange(121, 129) =~= i64_bytes(d.created_at));
}

fn read_key(data: &[u8], at: usize) -> (r: Pubkey)
    requires
        at + 32 <= data@.len(),
    ensures
        r@ == data@.subrange(at as int, at + 32),
{
    let len: usize = data.len();
    let mut bytes = [0u8; 32];
    let mut k: usize = 0;
    while k < 32
        invariant
            0 <= k <= 32,
            at + 32 <= data@.len() == len,
            bytes@.len() == 32,
            forall|j: int| 0 <= j < k ==> bytes@[j] == data@[at + j],
        decreases 32 - k,
    {
        bytes[k] = data[at + k];
        k = k + 1;
    }
    assert(bytes@ =~= data@.subrange(at as int, at + 32));
    Pubkey { bytes }
}

fn push_key(out: &mut Vec<u8>, key: &Pubkey)
    ensures
        final(out)@ == old(out)@ + key@,
{
    let ghost start = out@;
    let mut k: usize = 0;
    while k < 32
        invariant
            0 <= k <= 32,
            key@.len() == 32,
            out@ == start + key@.subrange(0, k as int),
        decreases 32 - k,
    {
        out.push(key.bytes[k]);
        k = k + 1;
        assert(out@ =~= start + key@.subrange(0, k as int));
    }
    assert(key@.subrange(0, 32) =~= key@);
}

fn decode_deposit(data: &[u8], at: usize) -> (r: Deposit)
    requires
        at + 129 <= data@.len(),
    ensures
        r@ == deposit_of_record(data@.subrange(at as int, at + 129)),
{
    let ghost rec = data@.subrange(at as int, at + 129);
    let _len: usize = data.len();
    let id = read_u64_le(data, at);
    let depositor = read_key(data, at + 8);
    let token_mint = read_key(data, at + 40);
    let amount = read_u64_le(data, at + 72);
    let unlock_time: i64 = (#[verifier::truncate] (read_u64_le(data, at + 80) as i64));
    let withdrawn = data[at + 88] == 1;
    let tag = read_key(data, at + 89);
    let created_at: i64 = (#[verifier::truncate] (read_u64_le(data, at + 121) as i64));
    assert(rec.subrange(0, 8) =~= data@.subrange(at as int, at + 8));
    assert(rec.subrange(8, 40) =~= data@.subrange(at + 8, at + 40));
    assert(rec.subrange(40, 72) =~= data@.subrange(at + 40, at + 72));
    assert(rec.subrange(72, 80) =~= data@.subrange(at + 72, at + 80));
    assert(rec.subrange(80, 88) =~= data@.subrange(at + 80, at + 88));
    assert(rec.subrange(89, 121) =~= data@.subrange(at + 89, at + 121));
    assert(rec.subrange(121, 129) =~= data@.subrange(at + 121, at + 129));
    Deposit {
        id,
        depositor,
        token_mint,
        amount,
        unlock_time,
        withdrawn,
        tag: tag.bytes,
        created_at,
    }
}

fn push_deposit(out: &mut Vec<u8>, d: &Deposit)
    ensures
        final(out)@ == old(out)@ + deposit_bytes(d@),
{
    let ghost start = out@;
    push_u64_le(out, d.id);
    push_key(out, &d.depositor);
    push_key(out, &d.token_mint);
    push_u64_le(out, d.amount);
    push_u64_le(out, (#[verifier::truncate] (d.unlock_time as u64)));
    out.push(if d.withdrawn {
        1u8
    } else {
        0u8
    });
    push_key(out, &Pubkey { bytes: d.tag });
    push_u64_le(out, (#[verifier::truncate] (d.created_at as u64)));
    assert(out@ =~= start + deposit_bytes(d@));
}

impl Vault {
    /// Reads a vault from the front of `data`; bytes after the record are
    /// ignored. A record that is cut short or holds a flag byte other than 0
    /// or 1 is `InvalidAccountData`.
    pub fn decode(data: &[u8]) -> (r: Result<Vault, HostError>)
        ensures
            r is Ok <==> vault_record_ok(data@),
            r matches Ok(v) ==> v@ == decoded_vault(data@),
            r matches Err(e) ==> e == HostError::InvalidAccountData,
    {
        let len: usize = data.len();
        if len < 44 {
            return Err(HostError::InvalidAccountData);
        }
        let owner = read_key(data, 0);
        let deposit_count = read_u64_le(data, 32);
        let n = read_le(data, 40, 4);
        proof {
            lemma_le_nat_bound(data@.subrange(40, 44));
            lemma_pow256_8();
        }
        if (len as u64) < 46 + 129 * n {
            return Err(HostError::InvalidAccountData);
        }
        let mut deposits: Vec<Deposit> = Vec::new();
        let mut k: u64 = 0;
        while k < n
            invariant
                0 <= k <= n,
                n == stored_list_len(data@),
                n < 0x1_0000_0000,
                46 + 129 * n <= data@.len() == len,
                deposits@.len() == k,
                forall|j: int|
                    0 <= j < k ==> (#[trigger] deposits@[j])@ == deposit_of_record(
                        record_at(data@, j),
                    ) && record_at(data@, j)[88] <= 1,
            decreases n - k,
        {
            let at = (44 + 129 * k) as usize;
            assert(at == 44 + 129 * k);
            assert(record_at(data@, k as int) =~= data@.subrange(at as int, at + 129));
            if data[at + 88] > 1 {
                return Err(HostError::InvalidAccountData);
            }
            let d = decode_deposit(data, at);
            let ghost before = deposits@;
            deposits.push(d);
            proof {
                assert forall|j: int| 0 <= j < k + 1 implies (#[trigger] deposits@[j])@
                    == deposit_of_record(record_at(data@, j)) && record_at(data@, j)[88] <= 1 by {
                    if j < k {
                        assert(deposits@[j] == before[j]);
                    }
                }
            }
            k = k + 1;
        }
        let t = (44 + 129 * n) as usize;
        assert(t == trailer_at(data@));
        if data[t] > 1 || data[t + 1] > 1 {
            return Err(HostError::InvalidAccountData);
        }
        let emergency_authority = if data[t + 1] == 1 {
            if len < t + 34 {
                return Err(HostError::InvalidAccountData);
            }
            Some(read_key(data, t + 2))
        } else {
            None
        };
        let v = Vault {
            owner,
            deposit_count,
            deposits,
            reentrancy_guard: data[t] == 1,
            emergency_authority,
        };
        assert(v@.deposits =~= decoded_vault(data@).deposits);
        assert forall|j: int| 0 <= j < n implies (#[trigger] record_at(data@, j))[88] <= 1 by {
            assert(v.deposits@[j]@ == deposit_of_record(record_at(data@, j)));
        }
        Ok(v)
    }

    /// The stored form of the vault; reading it back gives the vault.
    pub fn encode(&self) -> (r: Vec<u8>)
        requires
            self.deposits@.len() < 0x1_0000_0000,
        ensures
            r@.len() == stored_len(self@),
            vault_record_ok(r@),
            decoded_vault(r@) == self@,
    {
        let mut out: Vec<u8> = Vec::new();
        let n: usize = self.deposits.len();
        proof {
            lemma_pow256_8();
            lemma_le_round_trip(self.deposit_count as nat, 8);
            lemma_le_round_trip(n as nat, 4);
        }
        push_key(&mut out, &self.owner);
        push_u64_le(&mut out, self.deposit_count);
        push_le(&mut out, n as u64, 4);
        let ghost header = out@;
        assert(header.subrange(0, 32) =~= self.owner@);
        assert(header.subrange(32, 40) =~= le_bytes(self.deposit_count as nat, 8));
        assert(header.subrange(40, 44) =~= le_bytes(n as nat, 4));
        let mut k: usize = 0;
        while k < n
            invariant
                0 <= k <= n == self.deposits@.len(),
                n < 0x1_0000_0000,
                out@.len() == 44 + 129 * k,
                out@.subrange(0, 44) == header,
                forall|j: int|
                    0 <= j < k ==> (#[trigger] record_at(out@, j)) == deposit_bytes(
                        self.deposits@[j]@,
                    ),
            decreases n - k,
        {
            let ghost before = out@;
            proof {
                lemma_deposit_record(self.deposits@[k as int]@);
            }
            push_deposit(&mut out, &self.deposits[k]);
            proof {
                assert(out@.subrange(0, 44) =~= before.subrange(0, 44));
                assert forall|j: int| 0 <= j < k + 1 implies (#[trigger] record_at(out@, j))
                    == deposit_bytes(self.deposits@[j]@) by {
                    if j < k {
                        assert(record_at(out@, j) =~= record_at(before, j));
                    } else {
                        assert(record_at(out@, j) =~= deposit_bytes(self.deposits@[j]@));
                    }
                }
            }
            k = k + 1;
        }
        let ghost body = out@;
        out.push(if self.reentrancy_guard {
            1u8
        } else {
            0u8
        });
        match &self.emergency_authority {
            None => {
                out.push(0);
            },
            Some(key) => {
                out.push(1);
                push_key(&mut out, key);
            },
        }
        proof {
            let d = out@;
            assert(d.subrange(0, 44) =~= body.subrange(0, 44));
            assert(d.subrange(0, 32) =~= header.subrange(0, 32));
            assert(d.subrange(32, 40) =~= header.subrange(32, 40));
            assert(d.subrange(40, 44) =~= header.subrange(40, 44));
            assert(stored_list_len(d) == n);
            assert forall|j: int| 0 <= j < n implies #[trigger] record_at(d, j) == deposit_bytes(
                self.deposits@[j]@,
            ) by {
                assert(record_at(d, j) =~= record_at(body, j));
            }
            assert forall|j: int| 0 <= j < n implies (#[trigger] record_at(d, j))[88] <= 1 by {
                lemma_deposit_record(self.deposits@[j]@);
            }
            assert forall|j: int| 0 <= j < n implies deposit_of_record(#[trigger] record_at(d, j))
                == self@.deposits[j] by {
                lemma_deposit_record(self.deposits@[j]@);
            }
            assert(decoded_vault(d).deposits =~= self@.deposits);
            if let Some(key) = self.emergency_authority {
                assert(d.subrange(trailer_at(d) + 2, trailer_at(d) + 34) =~= key@);
            }
        }
        out
    }
}

/// What follows a stored vault does not change what is read back.
pub proof fn lemma_decode_ignores_tail(d: Seq<u8>, rest: Seq<u8>)
    requires
        vault_record_ok(d),
    ensures
        vault_record_ok(d + rest),
        decoded_vault(d + rest) == decoded_vault(d),
{
    let e = d + rest;
    assert(e.subrange(0, 32) =~= d.subrange(0, 32));
    assert(e.subrange(32, 40) =~= d.subrange(32, 40));
    assert(e.subrange(40, 44) =~= d.subrange(40, 44));
    assert forall|k: int| 0 <= k < stored_list_len(d) implies #[trigger] record_at(e, k)
        == record_at(d, k) by {
        assert(record_at(e, k) =~= record_at(d, k));
    }
    assert forall|k: int| 0 <= k < stored_list_len(e) implies (#[trigger] record_at(e, k))[88]
        <= 1 by {
        assert(record_at(e, k) == record_at(d, k));
    }
    assert(decoded_vault(e).deposits =~= decoded_vault(d).deposits);
    if d[trailer_at(d) + 1] == 1 {
        assert(e.subrange(trailer_at(d) + 2, trailer_at(d) + 34) =~= d.subrange(
            trailer_at(d) + 2,
            trailer_at(d) + 34,
        ));
    }
}

} // verus!
