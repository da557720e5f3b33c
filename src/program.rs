//! The checks of the on-chain program's single instruction, over plain
//! facts about the accounts it is given and the state it decodes.

use vstd::prelude::*;
use crate::state::TestState;

verus! {

/// Why the program refuses an instruction.
pub enum ProgramFailure {
    /// No account was given.
    NotEnoughAccountKeys,
    /// An account has the wrong owner or is not writable, or its state is
    /// invalid or cannot be decoded.
    InvalidAccountData,
    /// An account that must sign did not.
    MissingRequiredSignature,
    /// A failure of the program's own: 1 for empty instruction data.
    Custom(u32),
}

/// What the program reads of an account: its owner's key, and whether it
/// signed the transaction and may be written.
pub struct AccountFacts {
    pub owner: Vec<u8>,
    pub is_signer: bool,
    pub is_writable: bool,
}

/// The outcome of checking an account against its expected owner and the
/// signing and writing it must allow, the first failing check deciding.
pub open spec fn account_check(
    account: AccountFacts,
    owner: Seq<u8>,
    is_signer: bool,
    is_writable: bool,
) -> Result<(), ProgramFailure> {
    if account.owner@ != owner {
        Err(ProgramFailure::InvalidAccountData)
    } else if is_signer && !account.is_signer {
        Err(ProgramFailure::MissingRequiredSignature)
    } else if is_writable && !account.is_writable {
        Err(ProgramFailure::InvalidAccountData)
    } else {
        Ok(())
    }
}

/// Whether two byte strings are equal.
fn same_bytes(a: &Vec<u8>, b: &Vec<u8>) -> (r: bool)
    ensures
        r == (a@ == b@),
{
    if a.len() != b.len() {
        return false;
    }
    let mut i: usize = 0;
    while i < a.len()
        invariant
            a.len() == b.len(),
            i <= a.len(),
            forall|j: int| 0 <= j < i ==> a@[j] == b@[j],
        decreases a.len() - i,
    {
        if a[i] != b[i] {
            return false;
        }
        i += 1;
    }
    assert(a@ =~= b@);
    true
}

/// Checks an account, as [`account_check`] states.
pub fn validate_account(account: &AccountFacts, owner: &Vec<u8>, is_signer: bool, is_writable: bool)
    -> (r: Result<(), ProgramFailure>)
    ensures
        r == account_check(*account, owner@, is_signer, is_writable),
{
    if !same_bytes(&account.owner, owner) {
        return Err(ProgramFailure::InvalidAccountData);
    }
    if is_signer && !account.is_signer {
        return Err(ProgramFailure::MissingRequiredSignature);
    }
    if is_writable && !account.is_writable {
        return Err(ProgramFailure::InvalidAccountData);
    }
    Ok(())
}

/// The failure the program reports for an instruction it cannot read.
pub fn handle_program_error() -> (r: ProgramFailure)
    ensures
        r == ProgramFailure::Custom(1),
{
    ProgramFailure::Custom(1)
}

/// The outcome of the instruction: the first account must be owned by the
/// program, sign and be writable; the instruction data must not be empty;
/// the account's data must decode (`decoded` is what decoding gave) to a
/// state with a count above 0 and a non-empty name.
pub open spec fn instruction_outcome(
    accounts: Seq<AccountFacts>,
    program_id: Seq<u8>,
    data_is_empty: bool,
    decoded: Option<TestState>,
) -> Result<(), ProgramFailure> {
    if accounts.len() == 0 {
        Err(ProgramFailure::NotEnoughAccountKeys)
    } else if account_check(accounts[0], program_id, true, true) is Err {
        account_check(accounts[0], program_id, true, true)
    } else if data_is_empty {
        Err(ProgramFailure::Custom(1))
    } else {
        match decoded {
            None => Err(ProgramFailure::InvalidAccountData),
            Some(s) => if s.count == 0 || s.name@.len() == 0 {
                Err(ProgramFailure::InvalidAccountData)
            } else {
                Ok(())
            },
        }
    }
}

/// Decides the instruction, as [`instruction_outcome`] states.
pub fn process_instruction(
    accounts: &Vec<AccountFacts>,
    program_id: &Vec<u8>,
    instruction_data: &Vec<u8>,
    decoded: Option<&TestState>,
) -> (r: Result<(), ProgramFailure>)
    ensures
        r == instruction_outcome(
            accounts@,
            program_id@,
            instruction_data@.len() == 0,
            match decoded {
                Some(s) => Some(*s),
                None => None,
            },
        ),
{
    if accounts.len() == 0 {
        return Err(ProgramFailure::NotEnoughAccountKeys);
    }
    let checked = validate_account(&accounts[0], program_id, true, true);
    if checked.is_err() {
        return checked;
    }
    if instruction_data.len() == 0 {
        return Err(handle_program_error());
    }
    match decoded {
        None => Err(ProgramFailure::InvalidAccountData),
        Some(state) => {
            if state.count == 0 || state.name.as_str().is_empty() {
                Err(ProgramFailure::InvalidAccountData)
            } else {
                Ok(())
            }
        },
    }
}

} // verus!
