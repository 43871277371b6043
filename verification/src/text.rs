//! Results in words.

use bitcoin::hex::DisplayHex as _;
use vstd::prelude::*;

use crate::effects::Items;
use crate::error::ExecError;
use crate::exec::ExecStats;
use crate::execute::{ExecuteInfo, FmtStack, InfoData};
use crate::opcodes::Opcode;

verus! {

/// The digit for a number below sixteen.
pub open spec fn digit(d: int) -> char {
    seq!['0', '1', '2', '3', '4', '5', '6', '7', '8', '9', 'a', 'b', 'c', 'd', 'e', 'f'][d]
}

/// A number in decimal digits.
pub open spec fn decimal(n: nat) -> Seq<char>
    decreases n,
{
    if n < 10 {
        seq![digit(n as int)]
    } else {
        decimal(n / 10).push(digit((n % 10) as int))
    }
}

/// A number in decimal digits, with a sign where it is negative.
pub open spec fn signed_decimal(n: int) -> Seq<char> {
    if n < 0 {
        "-"@ + decimal((-n) as nat)
    } else {
        decimal(n as nat)
    }
}

/// A byte string in hexadecimal digits.
pub open spec fn hex(b: Seq<u8>) -> Seq<char> {
    Seq::new(
        2 * b.len(),
        |i: int|
            digit(
                if i % 2 == 0 {
                    b[i / 2] as int / 16
                } else {
                    b[i / 2] as int % 16
                },
            ),
    )
}

/// A text with spaces after it up to a length of eight.
pub open spec fn padded(text: Seq<char>) -> Seq<char> {
    if text.len() < 8 {
        text + Seq::new((8 - text.len()) as nat, |i: int| ' ')
    } else {
        text
    }
}

/// The name of an opcode.
pub uninterp spec fn opcode_name(op: u8) -> Seq<char>;

/// Formats `bitcoin::hex::DisplayHex::as_hex` with a width of eight. The contract claims that it
/// writes two lower-case hexadecimal digits for each byte, and spaces after them.
#[verifier::external_body]
fn padded_hex(bytes: &[u8]) -> (r: String)
    ensures
        r@ == padded(hex(bytes@)),
{
    format!("{:8}", bytes.as_hex())
}

/// Formats a `bitcoin::opcodes::Opcode` as its `Debug` does. The contract names the result, which
/// depends on the opcode alone.
#[verifier::external_body]
fn opcode_text(op: u8) -> (r: String)
    ensures
        r@ == opcode_name(op),
{
    format!("{:?}", bitcoin::opcodes::Opcode::from(op))
}

fn digit_text(d: u64) -> (r: &'static str)
    requires
        d < 10,
    ensures
        r@ == seq![digit(d as int)],
{
    proof {
        reveal_strlit("0");
        reveal_strlit("1");
        reveal_strlit("2");
        reveal_strlit("3");
        reveal_strlit("4");
        reveal_strlit("5");
        reveal_strlit("6");
        reveal_strlit("7");
        reveal_strlit("8");
        reveal_strlit("9");
    }
    let r = if d == 0 {
        "0"
    } else if d == 1 {
        "1"
    } else if d == 2 {
        "2"
    } else if d == 3 {
        "3"
    } else if d == 4 {
        "4"
    } else if d == 5 {
        "5"
    } else if d == 6 {
        "6"
    } else if d == 7 {
        "7"
    } else if d == 8 {
        "8"
    } else {
        "9"
    };
    assert(r@ =~= seq![digit(d as int)]);
    r
}

/// Appends a number in decimal digits.
fn append_decimal(out: &mut String, n: u64)
    ensures
        final(out)@ == old(out)@ + decimal(n as nat),
    decreases n,
{
    let ghost before = out@;
    if n >= 10 {
        append_decimal(out, n / 10);
    }
    out.append(digit_text(n % 10));
    assert(out@ =~= before + decimal(n as nat));
}

/// Appends a number in decimal digits, with a sign where it is negative.
fn append_signed(out: &mut String, n: i64)
    ensures
        final(out)@ == old(out)@ + signed_decimal(n as int),
{
    let ghost before = out@;
    if n < 0 {
        out.append("-");
        append_decimal(out, (-(n + 1)) as u64 + 1);
    } else {
        append_decimal(out, n as u64);
    }
    assert(out@ =~= before + signed_decimal(n as int));
}

/// The name of an error.
pub open spec fn error_name(e: ExecError) -> Seq<char> {
    match e {
        ExecError::DisabledOpcode => "DisabledOpcode"@,
        ExecError::BadOpcode => "BadOpcode"@,
        ExecError::OpCount => "OpCount"@,
        ExecError::PushSize => "PushSize"@,
        ExecError::MinimalData => "MinimalData"@,
        ExecError::InvalidStackOperation => "InvalidStackOperation"@,
        ExecError::NegativeLocktime => "NegativeLocktime"@,
        ExecError::UnsatisfiedLocktime => "UnsatisfiedLocktime"@,
        ExecError::UnbalancedConditional => "UnbalancedConditional"@,
        ExecError::TapscriptMinimalIf => "TapscriptMinimalIf"@,
        ExecError::Verify => "Verify"@,
        ExecError::OpReturn => "OpReturn"@,
        ExecError::EqualVerify => "EqualVerify"@,
        ExecError::NumEqualVerify => "NumEqualVerify"@,
        ExecError::CheckSigVerify => "CheckSigVerify"@,
        ExecError::TapscriptValidationWeight => "TapscriptValidationWeight"@,
        ExecError::PubkeyType => "PubkeyType"@,
        ExecError::WitnessPubkeyType => "WitnessPubkeyType"@,
        ExecError::SchnorrSigSize => "SchnorrSigSize"@,
        ExecError::SchnorrSigHashtype => "SchnorrSigHashtype"@,
        ExecError::SchnorrSig => "SchnorrSig"@,
        ExecError::StackSize => "StackSize"@,
        ExecError::ScriptIntNumericOverflow => "ScriptIntNumericOverflow"@,
        ExecError::Debug => "Debug"@,
    }
}

fn error_text(e: ExecError) -> (r: &'static str)
    ensures
        r@ == error_name(e),
{
    match e {
        ExecError::DisabledOpcode => "DisabledOpcode",
        ExecError::BadOpcode => "BadOpcode",
        ExecError::OpCount => "OpCount",
        ExecError::PushSize => "PushSize",
        ExecError::MinimalData => "MinimalData",
        ExecError::InvalidStackOperation => "InvalidStackOperation",
        ExecError::NegativeLocktime => "NegativeLocktime",
        ExecError::UnsatisfiedLocktime => "UnsatisfiedLocktime",
        ExecError::UnbalancedConditional => "UnbalancedConditional",
        ExecError::TapscriptMinimalIf => "TapscriptMinimalIf",
        ExecError::Verify => "Verify",
        ExecError::OpReturn => "OpReturn",
        ExecError::EqualVerify => "EqualVerify",
        ExecError::NumEqualVerify => "NumEqualVerify",
        ExecError::CheckSigVerify => "CheckSigVerify",
        ExecError::TapscriptValidationWeight => "TapscriptValidationWeight",
        ExecError::PubkeyType => "PubkeyType",
        ExecError::WitnessPubkeyType => "WitnessPubkeyType",
        ExecError::SchnorrSigSize => "SchnorrSigSize",
        ExecError::SchnorrSigHashtype => "SchnorrSigHashtype",
        ExecError::SchnorrSig => "SchnorrSig",
        ExecError::StackSize => "StackSize",
        ExecError::ScriptIntNumericOverflow => "ScriptIntNumericOverflow",
        ExecError::Debug => "Debug",
    }
}

/// The numbers about an execution in words.
pub open spec fn stats_text(stats: ExecStats) -> Seq<char> {
    "ExecStats { max_nb_stack_items: "@ + decimal(stats.max_nb_stack_items as nat)
        + ", opcode_count: "@ + decimal(stats.opcode_count as nat)
        + ", start_validation_weight: "@ + signed_decimal(stats.start_validation_weight as int)
        + ", validation_weight: "@ + signed_decimal(stats.validation_weight as int) + " }"@
}

fn stats_string(stats: &ExecStats) -> (r: String)
    ensures
        r@ == stats_text(*stats),
{
    let mut out = String::from_str("ExecStats { max_nb_stack_items: ");
    append_decimal(&mut out, stats.max_nb_stack_items as u64);
    out.append(", opcode_count: ");
    append_decimal(&mut out, stats.opcode_count as u64);
    out.append(", start_validation_weight: ");
    append_signed(&mut out, stats.start_validation_weight);
    out.append(", validation_weight: ");
    append_signed(&mut out, stats.validation_weight);
    out.append(" }");
    out
}

/// The items of a stack from the bottom up, `width` in a row. Each row but the first starts with
/// the index of its first item.
pub open spec fn rows_text(items: Items, width: int) -> Seq<char>
    decreases items.len(),
{
    if items.len() == 0 {
        Seq::empty()
    } else {
        let index = (items.len() - 1) as nat;
        let gap = if index == 0 {
            Seq::empty()
        } else if index as int % width == 0 {
            "\n"@ + decimal(index) + ":\t\t"@ + " "@
        } else {
            " "@
        };
        rows_text(items.drop_last(), width) + gap + "0x"@ + padded(hex(items.last()))
    }
}

/// A stack in words, with the index of its first item in front.
pub open spec fn stack_text(items: Items, width: int) -> Seq<char> {
    "\n0:\t\t "@ + rows_text(items, width)
}

/// The number of items in a row where none is asked for.
pub const DEFAULT_WIDTH: usize = 4;

/// A line with a text behind its title.
pub open spec fn titled(title: Seq<char>, text: Seq<char>) -> Seq<char> {
    title + text + "\n"@
}

/// The line on whether the execution succeeded.
pub open spec fn verdict_line(success: bool) -> Seq<char> {
    if success {
        "Script execution successful.\n"@
    } else {
        "Script execution failed!\n"@
    }
}

/// The line on the error, where there is one.
pub open spec fn error_line(error: Option<ExecError>) -> Seq<char> {
    match error {
        Some(e) => titled("Error: "@, error_name(e)),
        None => Seq::empty(),
    }
}

/// The line on the part of the script that was not executed, where there is one.
pub open spec fn remaining_line(remaining: Seq<char>) -> Seq<char> {
    if remaining.len() > 0 {
        titled("Remaining Script: "@, remaining)
    } else {
        Seq::empty()
    }
}

/// The lines on the items that are left, where there are any.
pub open spec fn stack_lines(items: Items, width: Option<usize>) -> Seq<char> {
    let columns = match width {
        Some(w) => w,
        None => DEFAULT_WIDTH,
    };
    if items.len() > 0 {
        titled("Final Stack: "@, stack_text(items, columns as int))
    } else {
        Seq::empty()
    }
}

/// The line on the opcode that failed, where there is one.
pub open spec fn opcode_line(opcode: Option<Opcode>) -> Seq<char> {
    match opcode {
        Some(op) => titled("Last Opcode: "@, opcode_name(op.0)),
        None => Seq::empty(),
    }
}

/// The outcome of an execution in words.
pub open spec fn info_text(info: InfoData, width: Option<usize>) -> Seq<char> {
    verdict_line(info.success) + error_line(info.error) + remaining_line(info.remaining_script)
        + stack_lines(info.final_stack, width) + opcode_line(info.last_opcode) + titled(
        "Stats: "@,
        stats_text(info.stats),
    )
}

/// Appends a line with a text behind its title.
fn append_titled(out: &mut String, title: &str, text: &str)
    ensures
        final(out)@ == old(out)@ + titled(title@, text@),
{
    let ghost before = out@;
    out.append(title);
    out.append(text);
    out.append("\n");
    assert(out@ =~= before + titled(title@, text@));
}

impl FmtStack {
    /// The stack in words, with `width` items in a row, which must be given where there is more
    /// than one item.
    pub fn to_text(&self, width: Option<usize>) -> (r: String)
        requires
            self@.len() > 1 ==> width is Some && width->0 > 0,
        ensures
            r@ == stack_text(
                self@,
                (match width {
                    Some(w) => w as int,
                    None => 1,
                }),
            ),
    {
        let columns: usize = match width {
            Some(w) => w,
            None => 1,
        };
        let mut out = String::from_str("\n0:\t\t ");
        let count = self.len();
        assert(out@ =~= "\n0:\t\t "@ + rows_text(self@.take(0), columns as int));
        for index in 0..count
            invariant
                count == self@.len(),
                count > 1 ==> columns > 0,
                out@ == "\n0:\t\t "@ + rows_text(self@.take(index as int), columns as int),
        {
            let ghost before = out@;
            if index > 0 {
                if index % columns == 0 {
                    out.append("\n");
                    append_decimal(&mut out, index as u64);
                    out.append(":\t\t");
                }
                out.append(" ");
            }
            out.append("0x");
            let item = self.get(index);
            let digits = padded_hex(item.as_slice());
            out.append(digits.as_str());
            proof {
                let items = self@.take(index + 1);
                assert(items.drop_last() =~= self@.take(index as int));
                assert(out@ =~= "\n0:\t\t "@ + rows_text(items, columns as int));
            }
        }
        assert(self@.take(count as int) =~= self@);
        out
    }
}

impl ExecuteInfo {
    /// The outcome in words, with `width` items of the stack in a row, or four where none is
    /// given.
    pub fn to_text(&self, width: Option<usize>) -> (r: String)
        requires
            self@.final_stack.len() > 1 ==> width != Some(0usize),
        ensures
            r@ == info_text(self@, width),
    {
        let mut out = if self.success {
            String::from_str("Script execution successful.\n")
        } else {
            String::from_str("Script execution failed!\n")
        };
        match self.error {
            Some(error) => append_titled(&mut out, "Error: ", error_text(error)),
            None => {},
        }
        assert(out@ =~= verdict_line(self.success) + error_line(self.error));
        if !self.remaining_script.as_str().is_empty() {
            append_titled(&mut out, "Remaining Script: ", self.remaining_script.as_str());
        }
        assert(out@ =~= verdict_line(self.success) + error_line(self.error) + remaining_line(
            self.remaining_script@,
        ));
        let ghost so_far = out@;
        if !self.final_stack.is_empty() {
            let columns: usize = match width {
                Some(w) => w,
                None => DEFAULT_WIDTH,
            };
            let text = self.final_stack.to_text(Some(columns));
            append_titled(&mut out, "Final Stack: ", text.as_str());
        }
        assert(out@ =~= so_far + stack_lines(self.final_stack@, width));
        let ghost so_far = out@;
        match self.last_opcode {
            Some(opcode) => {
                let name = opcode_text(opcode.0);
                append_titled(&mut out, "Last Opcode: ", name.as_str());
            },
            None => {},
        }
        assert(out@ =~= so_far + opcode_line(self.last_opcode));
        let stats = stats_string(&self.stats);
        append_titled(&mut out, "Stats: ", stats.as_str());
        out
    }
}

} // verus!
