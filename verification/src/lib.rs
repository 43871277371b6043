//! A Bitcoin Script interpreter with 64-bit script numbers.
//!
//! [`Exec`] executes a script one instruction at a time; the functions in [`execute`] execute a
//! whole Tapscript. What they do is stated over the state of a machine: [`machine`] says what one
//! step and a whole run lead to, [`effects`] what each opcode does to the items on the stack, and
//! [`laws`] what follows from that.

pub mod data_structures;
pub mod effects;
pub mod error;
pub mod exec;
pub mod execute;
pub mod hashes;
pub mod instruction;
pub mod laws;
pub mod locktime;
pub mod machine;
pub mod opcodes;
pub mod ops;
pub mod options;
pub mod profiler;
pub mod signatures;
pub mod text;
pub mod transaction;
pub mod utils;
pub mod witness;

pub use data_structures::Stack;
pub use error::{Error, ExecError};
pub use exec::{Exec, ExecStats, ExecutionResult};
pub use execute::{
    execute_script, execute_script_with_witness, execute_script_with_witness_and_tx_template,
    execute_script_with_witness_unlimited_stack, get_final_stack, try_execute_script,
    try_execute_script_with_witness, try_execute_script_with_witness_and_tx_template,
    try_execute_script_with_witness_unlimited_stack, try_get_final_stack, ExecuteInfo, FmtStack,
};
pub use options::{Experimental, ExecCtx, Options};
pub use profiler::{profiler_end, profiler_start};
pub use transaction::TxTemplate;
pub use witness::{convert_to_witness, try_convert_to_witness};
