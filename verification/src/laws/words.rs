//! What the texts on results say.

use vstd::prelude::*;

use crate::effects::Items;
use crate::error::ExecError;
use crate::exec::ExecStats;
use crate::execute::InfoData;
use crate::text::{
    decimal, digit, error_name, hex, info_text, opcode_name, padded, rows_text, signed_decimal,
    stack_text, stats_text,
};

verus! {

/// The number that a character stands for as a digit.
pub open spec fn digit_value(c: char) -> int {
    if '0' <= c <= '9' {
        c as int - '0' as int
    } else {
        10 + c as int - 'a' as int
    }
}

/// Whether a character is a decimal digit.
pub open spec fn is_decimal(c: char) -> bool {
    '0' <= c <= '9'
}

/// The number that a text of digits stands for.
pub open spec fn number_in(text: Seq<char>) -> int
    decreases text.len(),
{
    if text.len() == 0 {
        0
    } else {
        10 * number_in(text.drop_last()) + digit_value(text.last())
    }
}

/// A digit stands for its number, the higher ones as lower-case letters.
pub proof fn lemma_digits(d: int)
    requires
        0 <= d < 16,
    ensures
        digit_value(digit(d)) == d,
        d < 10 <==> is_decimal(digit(d)),
        d >= 10 ==> 'a' <= digit(d) <= 'f',
{
}

/// A number is written in decimal digits that stand for it, with no zero in front of others.
pub proof fn lemma_decimal(n: nat)
    ensures
        number_in(decimal(n)) == n,
        forall|i: int| 0 <= i < decimal(n).len() ==> is_decimal(#[trigger] decimal(n)[i]),
        decimal(n).len() > 0,
        decimal(n).len() > 1 ==> decimal(n)[0] != '0',
        n > 0 ==> decimal(n)[0] != '0',
    decreases n,
{
    lemma_digits((n % 10) as int);
    if n < 10 {
        assert(decimal(n).drop_last() =~= Seq::empty());
        assert(number_in(Seq::empty()) == 0);
    } else {
        lemma_decimal(n / 10);
        let front = decimal(n / 10);
        assert(decimal(n).drop_last() =~= front);
        assert(decimal(n)[0] == front[0]);
    }
}

/// A negative number is written as the number without its sign behind a minus.
pub proof fn lemma_signed_decimal(n: int)
    ensures
        n >= 0 ==> signed_decimal(n) == decimal(n as nat),
        n < 0 ==> signed_decimal(n) == seq!['-'] + decimal((-n) as nat),
{
    reveal_strlit("-");
    assert("-"@ =~= seq!['-']);
}

/// Each byte is written as two digits, the higher half first; a text of fewer than eight
/// characters is filled up with spaces behind it.
pub proof fn lemma_hex(b: Seq<u8>, last: u8, text: Seq<char>)
    ensures
        hex(Seq::empty()) == Seq::<char>::empty(),
        hex(b).len() == 2 * b.len(),
        hex(b.push(last)).take(2 * b.len() as int) == hex(b),
        16 * digit_value(hex(b.push(last))[2 * b.len() as int]) + digit_value(
            hex(b.push(last))[2 * b.len() as int + 1],
        ) == last,
        text.is_prefix_of(padded(text)),
        text.len() >= 8 ==> padded(text) == text,
        text.len() <= 8 ==> padded(text).len() == 8,
        forall|i: int| text.len() <= i < padded(text).len() ==> #[trigger] padded(text)[i] == ' ',
{
    assert(hex(Seq::empty()) =~= Seq::<char>::empty());
    let longer = hex(b.push(last));
    assert(longer.take(2 * b.len() as int) =~= hex(b));
    lemma_digits(last as int / 16);
    lemma_digits(last as int % 16);
    assert(padded(text).take(text.len() as int) =~= text);
}

/// A stack starts with a line for the index of its bottom item. Each further item stands behind a
/// space, and the first of a row behind its index on a line of its own.
pub proof fn lemma_rows(s: Items, x: Seq<u8>, width: int)
    requires
        width > 0,
    ensures
        stack_text(Seq::empty(), width) == "\n0:\t\t "@,
        stack_text(seq![x], width) == "\n0:\t\t "@ + "0x"@ + padded(hex(x)),
        s.len() > 0 && s.len() as int % width != 0 ==> stack_text(s.push(x), width) == stack_text(
            s,
            width,
        ) + " "@ + "0x"@ + padded(hex(x)),
        s.len() > 0 && s.len() as int % width == 0 ==> stack_text(s.push(x), width) == stack_text(
            s,
            width,
        ) + "\n"@ + decimal(s.len()) + ":\t\t"@ + " "@ + "0x"@ + padded(hex(x)),
{
    let front = "\n0:\t\t "@;
    assert(front + rows_text(Seq::empty(), width) =~= front);
    assert(seq![x].drop_last() =~= Seq::<Seq<u8>>::empty());
    assert(stack_text(seq![x], width) =~= front + "0x"@ + padded(hex(x)));
    assert(s.push(x).drop_last() =~= s);
    if s.len() > 0 {
        let gap = "\n"@ + decimal(s.len()) + ":\t\t"@ + " "@;
        if s.len() as int % width == 0 {
            assert(rows_text(s.push(x), width) == rows_text(s, width) + gap + "0x"@ + padded(
                hex(x),
            ));
            assert(stack_text(s.push(x), width) =~= stack_text(s, width) + "\n"@ + decimal(s.len())
                + ":\t\t"@ + " "@ + "0x"@ + padded(hex(x)));
        } else {
            assert(stack_text(s.push(x), width) =~= stack_text(s, width) + " "@ + "0x"@ + padded(
                hex(x),
            ));
        }
    }
}

/// The text on the numbers of an execution, with each number behind its name.
pub open spec fn numbers_line(stats: ExecStats) -> Seq<char> {
    "Stats: "@ + ("ExecStats { max_nb_stack_items: "@ + decimal(stats.max_nb_stack_items as nat)
        + ", opcode_count: "@ + decimal(stats.opcode_count as nat) + ", start_validation_weight: "@
        + signed_decimal(stats.start_validation_weight as int) + ", validation_weight: "@
        + signed_decimal(stats.validation_weight as int) + " }"@) + "\n"@
}

/// The text on an execution says whether it succeeded and gives its numbers. Between the two come,
/// in this order, where there are any: the error, the rest of the script, the items, in rows of
/// four unless another number is asked for, and the last opcode.
pub proof fn lemma_info(info: InfoData, width: Option<usize>)
    ensures
        info_text(info, width) == (if info.success {
            "Script execution successful.\n"@
        } else {
            "Script execution failed!\n"@
        }) + (if info.error is Some {
            "Error: "@ + error_name(info.error->0) + "\n"@
        } else {
            Seq::empty()
        }) + (if info.remaining_script.len() > 0 {
            "Remaining Script: "@ + info.remaining_script + "\n"@
        } else {
            Seq::empty()
        }) + (if info.final_stack.len() > 0 {
            "Final Stack: "@ + stack_text(
                info.final_stack,
                if width is Some {
                    width->0 as int
                } else {
                    4
                },
            ) + "\n"@
        } else {
            Seq::empty()
        }) + (match info.last_opcode {
            Some(op) => "Last Opcode: "@ + opcode_name(op.0) + "\n"@,
            None => Seq::empty(),
        }) + numbers_line(info.stats),
{
    assert("Stats: "@ + stats_text(info.stats) + "\n"@ =~= numbers_line(info.stats));
}

/// The length and the first character of the name of an error.
spec fn name_mark(e: ExecError) -> (nat, char) {
    match e {
        ExecError::DisabledOpcode => (14, 'D'),
        ExecError::BadOpcode => (9, 'B'),
        ExecError::OpCount => (7, 'O'),
        ExecError::PushSize => (8, 'P'),
        ExecError::MinimalData => (11, 'M'),
        ExecError::InvalidStackOperation => (21, 'I'),
        ExecError::NegativeLocktime => (16, 'N'),
        ExecError::UnsatisfiedLocktime => (19, 'U'),
        ExecError::UnbalancedConditional => (21, 'U'),
        ExecError::TapscriptMinimalIf => (18, 'T'),
        ExecError::Verify => (6, 'V'),
        ExecError::OpReturn => (8, 'O'),
        ExecError::EqualVerify => (11, 'E'),
        ExecError::NumEqualVerify => (14, 'N'),
        ExecError::CheckSigVerify => (14, 'C'),
        ExecError::TapscriptValidationWeight => (25, 'T'),
        ExecError::PubkeyType => (10, 'P'),
        ExecError::WitnessPubkeyType => (17, 'W'),
        ExecError::SchnorrSigSize => (14, 'S'),
        ExecError::SchnorrSigHashtype => (18, 'S'),
        ExecError::SchnorrSig => (10, 'S'),
        ExecError::StackSize => (9, 'S'),
        ExecError::ScriptIntNumericOverflow => (24, 'S'),
        ExecError::Debug => (5, 'D'),
    }
}

proof fn lemma_name_mark(e: ExecError)
    ensures
        error_name(e).len() == name_mark(e).0,
        error_name(e)[0] == name_mark(e).1,
{
    match e {
        ExecError::DisabledOpcode => {
            reveal_strlit("DisabledOpcode");
        },
        ExecError::BadOpcode => {
            reveal_strlit("BadOpcode");
        },
        ExecError::OpCount => {
            reveal_strlit("OpCount");
        },
        ExecError::PushSize => {
            reveal_strlit("PushSize");
        },
        ExecError::MinimalData => {
            reveal_strlit("MinimalData");
        },
        ExecError::InvalidStackOperation => {
            reveal_strlit("InvalidStackOperation");
        },
        ExecError::NegativeLocktime => {
            reveal_strlit("NegativeLocktime");
        },
        ExecError::UnsatisfiedLocktime => {
            reveal_strlit("UnsatisfiedLocktime");
        },
        ExecError::UnbalancedConditional => {
            reveal_strlit("UnbalancedConditional");
        },
        ExecError::TapscriptMinimalIf => {
            reveal_strlit("TapscriptMinimalIf");
        },
        ExecError::Verify => {
            reveal_strlit("Verify");
        },
        ExecError::OpReturn => {
            reveal_strlit("OpReturn");
        },
        ExecError::EqualVerify => {
            reveal_strlit("EqualVerify");
        },
        ExecError::NumEqualVerify => {
            reveal_strlit("NumEqualVerify");
        },
        ExecError::CheckSigVerify => {
            reveal_strlit("CheckSigVerify");
        },
        ExecError::TapscriptValidationWeight => {
            reveal_strlit("TapscriptValidationWeight");
        },
        ExecError::PubkeyType => {
            reveal_strlit("PubkeyType");
        },
        ExecError::WitnessPubkeyType => {
            reveal_strlit("WitnessPubkeyType");
        },
        ExecError::SchnorrSigSize => {
            reveal_strlit("SchnorrSigSize");
        },
        ExecError::SchnorrSigHashtype => {
            reveal_strlit("SchnorrSigHashtype");
        },
        ExecError::SchnorrSig => {
            reveal_strlit("SchnorrSig");
        },
        ExecError::StackSize => {
            reveal_strlit("StackSize");
        },
        ExecError::ScriptIntNumericOverflow => {
            reveal_strlit("ScriptIntNumericOverflow");
        },
        ExecError::Debug => {
            reveal_strlit("Debug");
        },
    }
}

/// No two errors have the same name.
pub proof fn lemma_error_names(a: ExecError, b: ExecError)
    ensures
        error_name(a) == error_name(b) <==> a == b,
{
    lemma_name_mark(a);
    lemma_name_mark(b);
}

} // verus!
