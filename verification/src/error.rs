use vstd::prelude::*;

use crate::instruction::ScriptError;

verus! {

/// Why the execution of a script failed.
#[derive(Debug, Clone, Copy, PartialEq, Eq, Structural)]
pub enum ExecError {
    DisabledOpcode,
    BadOpcode,
    OpCount,
    PushSize,
    MinimalData,
    InvalidStackOperation,
    NegativeLocktime,
    UnsatisfiedLocktime,
    UnbalancedConditional,
    TapscriptMinimalIf,
    Verify,
    OpReturn,
    EqualVerify,
    NumEqualVerify,
    CheckSigVerify,
    TapscriptValidationWeight,
    PubkeyType,
    WitnessPubkeyType,
    SchnorrSigSize,
    SchnorrSigHashtype,
    SchnorrSig,
    StackSize,
    ScriptIntNumericOverflow,
    Debug,
}

/// Why a script machine could not be set up, or a witness could not be built.
#[derive(Debug, Clone, Copy)]
pub enum Error {
    /// The script does not decode into instructions.
    InvalidScript(ScriptError),
    /// Any other reason, in words.
    Other(&'static str),
}

} // verus!
