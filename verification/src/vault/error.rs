use vstd::prelude::*;

verus! {

/// The program's own errors, surfaced as custom program errors.
#[derive(Clone, Copy, PartialEq, Eq, Debug)]
pub enum VaultError {
    InvalidSignature,
    InsufficientFunds,
    BadTokenProgram,
    BufferTooSmall,
}

impl VaultError {
    /// The custom error code of each variant.
    pub open spec fn code_spec(self) -> u32 {
        match self {
            VaultError::InvalidSignature => 0,
            VaultError::InsufficientFunds => 1,
            VaultError::BadTokenProgram => 2,
            VaultError::BufferTooSmall => 3,
        }
    }

    /// The custom error code (`0` to `3`, in declaration order).
    pub fn code(&self) -> (c: u32)
        ensures
            c == self.code_spec(),
    {
        match self {
            VaultError::InvalidSignature => 0,
            VaultError::InsufficientFunds => 1,
            VaultError::BadTokenProgram => 2,
            VaultError::BufferTooSmall => 3,
        }
    }
}

/// Every way an instruction of the program can fail: the standard program
/// errors it returns, and its own custom errors.
#[derive(Clone, Copy, PartialEq, Eq, Debug)]
pub enum ProgramFailure {
    InvalidInstructionData,
    NotEnoughAccountKeys,
    InvalidSeeds,
    MissingRequiredSignature,
    IllegalOwner,
    InvalidAccountData,
    Custom(VaultError),
}

/// Distinct errors have distinct codes.
pub proof fn lemma_codes_distinct(a: VaultError, b: VaultError)
    ensures
        a.code_spec() == b.code_spec() <==> a == b,
{
}

} // verus!
