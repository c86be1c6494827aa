use crate::bytes::{le_bytes, le_nat, lemma_le_nat_bound, lemma_le_round_trip, lemma_pow256_8, push_u64_le, read_u64_le, pow256};
use crate::types::VaultError;
use vstd::prelude::*;

verus! {

/// The four requests the vault serves.
///
/// Wire form: one tag byte (0 to 3 in the order below), then the fields in
/// order, integers as eight little-endian bytes, the label as its 32 bytes;
/// nothing may follow.
#[derive(Clone, Copy, Debug, PartialEq, Eq)]
pub enum VaultInstruction {
    /// Create a new vault.
    CreateVault,
    /// Lock `amount` tokens until `unlock_time`, under the label `tag`.
    Deposit { amount: u64, unlock_time: i64, tag: [u8; 32] },
    /// Withdraw a deposit whose unlock time has come.
    Withdraw { deposit_id: u64 },
    /// Withdraw a deposit by the emergency authority, ignoring its unlock time.
    EmergencyWithdraw { deposit_id: u64 },
}

/// Whether `data` has the shape of a request: a known tag byte and exactly
/// the length that the tag's fields take.
pub open spec fn instruction_shape_ok(data: Seq<u8>) -> bool {
    &&& data.len() > 0
    &&& {
        ||| data[0] == 0 && data.len() == 1
        ||| data[0] == 1 && data.len() == 49
        ||| (data[0] == 2 || data[0] == 3) && data.len() == 9
    }
}

/// Whether `data` is the wire form of `i`.
pub open spec fn encodes(data: Seq<u8>, i: VaultInstruction) -> bool {
    match i {
        VaultInstruction::CreateVault => data.len() == 1 && data[0] == 0,
        VaultInstruction::Deposit { amount, unlock_time, tag } => {
            &&& data.len() == 49
            &&& data[0] == 1
            &&& amount == le_nat(data.subrange(1, 9))
            &&& unlock_time == le_nat(data.subrange(9, 17)) as i64
            &&& tag@ == data.subrange(17, 49)
        },
        VaultInstruction::Withdraw { deposit_id } => {
            &&& data.len() == 9
            &&& data[0] == 2
            &&& deposit_id == le_nat(data.subrange(1, 9))
        },
        VaultInstruction::EmergencyWithdraw { deposit_id } => {
            &&& data.len() == 9
            &&& data[0] == 3
            &&& deposit_id == le_nat(data.subrange(1, 9))
        },
    }
}

/// A wire form stands for one request only, and has the shape of one.
pub proof fn lemma_encoding_unique(data: Seq<u8>, i: VaultInstruction, j: VaultInstruction)
    requires
        encodes(data, i),
        encodes(data, j),
    ensures
        i == j,
        instruction_shape_ok(data),
{
    if let VaultInstruction::Deposit { tag: a, .. } = i {
        if let VaultInstruction::Deposit { tag: b, .. } = j {
            assert(a@ =~= b@);
            assert(a =~= b);
        }
    }
}

impl VaultInstruction {
    /// Decodes a request; anything but the wire form of one of the four
    /// requests, the empty input included, is `InvalidInstructionData`.
    pub fn unpack(data: &[u8]) -> (r: Result<VaultInstruction, VaultError>)
        ensures
            r is Ok <==> instruction_shape_ok(data@),
            r matches Ok(i) ==> encodes(data@, i),
            r matches Err(e) ==> e == VaultError::InvalidInstructionData,
    {
        if data.len() == 0 {
            return Err(VaultError::InvalidInstructionData);
        }
        let tag_byte = data[0];
        if tag_byte == 0 && data.len() == 1 {
            Ok(VaultInstruction::CreateVault)
        } else if tag_byte == 1 && data.len() == 49 {
            let amount = read_u64_le(data, 1);
            let unlock_time: i64 = (#[verifier::truncate] (read_u64_le(data, 9) as i64));
            let mut tag = [0u8; 32];
            let mut k: usize = 0;
            while k < 32
                invariant
                    0 <= k <= 32,
                    data@.len() == 49,
                    tag@.len() == 32,
                    forall|j: int| 0 <= j < k ==> tag@[j] == data@[17 + j],
                decreases 32 - k,
            {
                tag[k] = data[17 + k];
                k = k + 1;
            }
            assert(tag@ =~= data@.subrange(17, 49));
            Ok(VaultInstruction::Deposit { amount, unlock_time, tag })
        } else if tag_byte == 2 && data.len() == 9 {
            Ok(VaultInstruction::Withdraw { deposit_id: read_u64_le(data, 1) })
        } else if tag_byte == 3 && data.len() == 9 {
            Ok(VaultInstruction::EmergencyWithdraw { deposit_id: read_u64_le(data, 1) })
        } else {
            Err(VaultError::InvalidInstructionData)
        }
    }

    /// The wire form of the request.
    pub fn pack(&self) -> (r: Vec<u8>)
        ensures
            encodes(r@, *self),
    {
        let mut out: Vec<u8> = Vec::new();
        proof {
            lemma_pow256_8();
        }
        match self {
            VaultInstruction::CreateVault => {
                out.push(0);
            },
            VaultInstruction::Deposit { amount, unlock_time, tag } => {
                let t: u64 = (#[verifier::truncate] (*unlock_time as u64));
                proof {
                    lemma_le_round_trip(*amount as nat, 8);
                    lemma_le_round_trip(t as nat, 8);
                }
                out.push(1);
                push_u64_le(&mut out, *amount);
                push_u64_le(&mut out, t);
                assert(out@.subrange(1, 9) =~= le_bytes(*amount as nat, 8));
                assert(out@.subrange(9, 17) =~= le_bytes(t as nat, 8));
                let mut k: usize = 0;
                while k < 32
                    invariant
                        0 <= k <= 32,
                        tag@.len() == 32,
                        out@.len() == 17 + k,
                        out@[0] == 1,
                        out@.subrange(1, 9) == le_bytes(*amount as nat, 8),
                        out@.subrange(9, 17) == le_bytes(t as nat, 8),
                        forall|j: int| 0 <= j < k ==> out@[17 + j] == tag@[j],
                    decreases 32 - k,
                {
                    out.push(tag[k]);
                    k = k + 1;
                }
                proof {
                    assert(out@.subrange(17, 49) =~= tag@);
                    let u = *unlock_time;
                    assert((#[verifier::truncate] (t as i64)) == u) by (bit_vector)
                        requires
                            t == (#[verifier::truncate] (u as u64)),
                    ;
                }
            },
            VaultInstruction::Withdraw { deposit_id } => {
                out.push(2);
                push_u64_le(&mut out, *deposit_id);
                proof {
                    lemma_le_round_trip(*deposit_id as nat, 8);
                    assert(out@.subrange(1, 9) =~= le_bytes(*deposit_id as nat, 8));
                }
            },
            VaultInstruction::EmergencyWithdraw { deposit_id } => {
                out.push(3);
                push_u64_le(&mut out, *deposit_id);
                proof {
                    lemma_le_round_trip(*deposit_id as nat, 8);
                    assert(out@.subrange(1, 9) =~= le_bytes(*deposit_id as nat, 8));
                }
            },
        }
        out
    }
}

} // verus!
