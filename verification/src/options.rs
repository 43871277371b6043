use vstd::prelude::*;

verus! {

/// Used to enable experimental script features.
#[derive(Debug, Clone, Copy, PartialEq, Eq, Structural)]
pub struct Experimental {
    /// Enable an experimental implementation of OP_CAT.
    pub op_cat: bool,
    /// Enable OP_MUL.
    pub op_mul: bool,
    /// Enable OP_AND (bitwise AND on equal-length byte strings).
    pub op_and: bool,
}

/// Used to fine-tune different variables during execution.
#[derive(Debug, Clone, Copy, PartialEq, Eq, Structural)]
pub struct Options {
    /// Require data pushes be minimally encoded.
    pub require_minimal: bool,
    /// Verify OP_CHECKLOCKTIMEVERIFY.
    pub verify_cltv: bool,
    /// Verify OP_CHECKSEQUENCEVERIFY.
    pub verify_csv: bool,
    /// Verify conditionals are minimally encoded.
    pub verify_minimal_if: bool,
    /// Enforce a strict limit of 1000 total stack items.
    pub enforce_stack_limit: bool,
    /// Enforce that OP_SUB and OP_1SUB results are non-negative (Val64 semantics).
    pub enforce_sub_nonnegative: bool,
    pub experimental: Experimental,
}

/// The options in use where nothing else is asked for, with or without OP_MUL.
pub open spec fn standard_options(op_mul: bool) -> Options {
    Options {
        require_minimal: false,
        verify_cltv: true,
        verify_csv: true,
        verify_minimal_if: true,
        enforce_stack_limit: true,
        enforce_sub_nonnegative: true,
        experimental: Experimental { op_cat: true, op_mul, op_and: true },
    }
}

impl Default for Options {
    fn default() -> (r: Self)
        ensures
            r == standard_options(false),
    {
        Options {
            require_minimal: false,
            verify_cltv: true,
            verify_csv: true,
            verify_minimal_if: true,
            enforce_stack_limit: true,
            enforce_sub_nonnegative: true,
            experimental: Experimental { op_cat: true, op_mul: false, op_and: true },
        }
    }
}

impl Options {
    pub fn default_with_mul() -> (r: Self)
        ensures
            r == standard_options(true),
    {
        Options {
            require_minimal: false,
            verify_cltv: true,
            verify_csv: true,
            verify_minimal_if: true,
            enforce_stack_limit: true,
            enforce_sub_nonnegative: true,
            experimental: Experimental { op_cat: true, op_mul: true, op_and: true },
        }
    }
}

/// The rules under which a script runs.
#[derive(Debug, Clone, Copy, PartialEq, Eq, Structural)]
pub enum ExecCtx {
    Legacy,
    SegwitV0,
    Tapscript,
}

} // verus!
