use vstd::prelude::*;

use crate::data_structures::Stack;
use crate::effects::{short_items, Items};
use crate::error::ExecError;
use crate::exec::{Exec, ExecStats};
use crate::laws::{lemma_run_result, result_fits};
use crate::machine::{
    is_countable, items_fit, lemma_step_progress, run, setup_error, start, Machine,
};
use crate::opcodes::Opcode;
use crate::options::{standard_options, ExecCtx, Options};
use crate::transaction::{outputs_data, SpendingTx, TemplateData, TxData, TxTemplate};
use crate::witness::{copy_witness, witness_items};

verus! {

/// The human-readable form of a script.
pub uninterp spec fn asm_text(script: Seq<u8>) -> Seq<char>;

/// Calls `bitcoin::Script::to_asm_string`. The contract names the result, which depends on the
/// bytes alone, and claims that it is empty for the empty script and no other.
#[verifier::external_body]
fn to_asm_string(script: &[u8]) -> (r: String)
    ensures
        r@ == asm_text(script@),
        r@.len() == 0 <==> script@.len() == 0,
{
    bitcoin::Script::from_bytes(script).to_asm_string()
}

/// A wrapper for the stack types to print them better.
#[derive(Debug)]
pub struct FmtStack(pub Stack);

impl View for FmtStack {
    type V = Items;

    open spec fn view(&self) -> Items {
        self.0@
    }
}

impl FmtStack {
    pub fn len(&self) -> (r: usize)
        ensures
            r == self@.len(),
    {
        self.0.len()
    }

    pub fn is_empty(&self) -> (r: bool)
        ensures
            r == (self@.len() == 0),
    {
        self.0.is_empty()
    }

    /// The bytes of the item at `index`, counted from the bottom.
    pub fn get(&self, index: usize) -> (r: Vec<u8>)
        requires
            index < self@.len(),
        ensures
            r@ == self@[index as int],
    {
        self.0.get(index)
    }
}

/// What there is to say of an execution that has ended.
#[derive(Debug)]
pub struct ExecuteInfo {
    pub success: bool,
    pub error: Option<ExecError>,
    pub final_stack: FmtStack,
    /// The part of the script that was not executed, in words.
    pub remaining_script: String,
    pub last_opcode: Option<Opcode>,
    pub stats: ExecStats,
}

/// What an `ExecuteInfo` says.
pub struct InfoData {
    pub success: bool,
    pub error: Option<ExecError>,
    pub final_stack: Items,
    pub remaining_script: Seq<char>,
    pub last_opcode: Option<Opcode>,
    pub stats: ExecStats,
}

impl View for ExecuteInfo {
    type V = InfoData;

    open spec fn view(&self) -> InfoData {
        InfoData {
            success: self.success,
            error: self.error,
            final_stack: self.final_stack@,
            remaining_script: self.remaining_script@,
            last_opcode: self.last_opcode,
            stats: self.stats,
        }
    }
}

/// What there is to say of a machine whose execution has ended.
pub open spec fn info_of(m: Machine) -> InfoData {
    let end = m.result->0;
    InfoData {
        success: end.success,
        error: end.error,
        final_stack: m.stack,
        remaining_script: asm_text(m.rest()),
        last_opcode: end.opcode,
        stats: m.stats,
    }
}

/// A transaction of version 2 without inputs and outputs, with an all-zero leaf.
pub open spec fn bare_template_data() -> TemplateData {
    TemplateData {
        tx: TxData { version: 2, lock_time: 0, input: Seq::empty(), output: Seq::empty() },
        prevouts: Seq::empty(),
        input_idx: 0,
        taproot: Some((Seq::new(32, |i: int| 0u8), None)),
    }
}

/// The machine once a script has been executed as a Tapscript. Nothing where no machine can be
/// set up for it, and where some instruction on the way has no outcome.
pub open spec fn execution(
    opt: Options,
    tx: TemplateData,
    script: Seq<u8>,
    witness: Items,
) -> Option<Machine> {
    if setup_error(ExecCtx::Tapscript, opt, tx, script) is Some {
        None
    } else {
        run(start(ExecCtx::Tapscript, opt, tx, script, witness))
    }
}

/// The machine once a script has been executed with the standard options, for no transaction in
/// particular.
pub open spec fn standard_execution(script: Seq<u8>, witness: Items) -> Option<Machine> {
    execution(standard_options(false), bare_template_data(), script, witness)
}

/// The standard options without the limit on the number of items.
pub open spec fn without_stack_limit() -> Options {
    Options { enforce_stack_limit: false, ..standard_options(false) }
}

/// The machine once a script has been executed as `standard_execution` says, but with no limit on
/// the number of items.
pub open spec fn unlimited_execution(script: Seq<u8>, witness: Items) -> Option<Machine> {
    execution(without_stack_limit(), bare_template_data(), script, witness)
}

/// Whether a script comes to its end without an error.
pub open spec fn ends_without_error(script: Seq<u8>, witness: Items) -> bool {
    standard_execution(script, witness) matches Some(m) && m.result->0.error is None
}

fn bare_template() -> (r: TxTemplate)
    ensures
        r@ == bare_template_data(),
{
    let leaf: [u8; 32] = [0u8; 32];
    let r = TxTemplate {
        tx: SpendingTx { version: 2, lock_time: 0, input: Vec::new(), output: Vec::new() },
        prevouts: Vec::new(),
        input_idx: 0,
        taproot_annex_scriptleaf: Some((leaf, None)),
    };
    assert(r.tx.input@ =~= Seq::empty());
    assert(outputs_data(r.tx.output@) =~= Seq::empty());
    assert(outputs_data(r.prevouts@) =~= Seq::empty());
    assert(leaf@ =~= Seq::new(32, |i: int| 0u8));
    r
}

/// Executes a script as a Tapscript, to its end.
fn execute(opt: Options, tx: TxTemplate, script: Vec<u8>, witness: Vec<Vec<u8>>) -> (r: Exec)
    requires
        is_countable(script@, witness_items(witness@)),
        execution(opt, tx@, script@, witness_items(witness@)) is Some,
    ensures
        r.wf(),
        r@.result is Some,
        result_fits(r@),
        Some(r@) == execution(opt, tx@, script@, witness_items(witness@)),
        short_items(witness_items(witness@)) ==> items_fit(r@),
{
    let ghost short = short_items(witness_items(witness@));
    let ghost all = execution(opt, tx@, script@, witness_items(witness@));
    proof {
        lemma_run_result(
            start(ExecCtx::Tapscript, opt, tx@, script@, witness_items(witness@)),
        );
    }
    let mut exec = match Exec::new(ExecCtx::Tapscript, opt, tx, script, witness) {
        Ok(exec) => exec,
        Err(_) => vstd::pervasive::unreached(),
    };
    loop
        invariant
            exec.wf(),
            exec@.position <= exec@.script.len(),
            run(exec@) == all,
            all is Some,
            short ==> items_fit(exec@),
        ensures
            short ==> items_fit(exec@),
            exec.wf(),
            exec@.result is Some,
            run(exec@) == all,
        decreases
                (if exec@.result is Some {
                    0
                } else {
                    1 + exec@.script.len() - exec@.position
                }),
    {
        proof {
            if exec@.result is None {
                lemma_step_progress(exec@);
            }
        }
        if exec.exec_next().is_err() {
            break ;
        }
    }
    exec
}

/// Whether a script can be executed as a Tapscript to its end.
fn completes(opt: Options, tx: &TxTemplate, script: &Vec<u8>, witness: &Vec<Vec<u8>>) -> (r: bool)
    requires
        is_countable(script@, witness_items(witness@)),
    ensures
        r == (execution(opt, tx@, script@, witness_items(witness@)) is Some),
{
    let ghost all = execution(opt, tx@, script@, witness_items(witness@));
    let script_copy = script.clone();
    assert(script_copy@ =~= script@);
    let mut exec = match Exec::new(
        ExecCtx::Tapscript,
        opt,
        tx.clone(),
        script_copy,
        copy_witness(witness),
    ) {
        Ok(exec) => exec,
        Err(_) => {
            return false;
        },
    };
    while exec.result().is_none()
        invariant
            exec.wf(),
            exec@.position <= exec@.script.len(),
            run(exec@) == all,
            all == execution(opt, tx@, script@, witness_items(witness@)),
        decreases
                (if exec@.result is Some {
                    0
                } else {
                    1 + exec@.script.len() - exec@.position
                }),
    {
        proof {
            lemma_step_progress(exec@);
        }
        if !exec.advance() {
            return false;
        }
    }
    true
}

/// What there is to say of a machine whose execution has ended.
fn summary(exec: &Exec) -> (r: ExecuteInfo)
    requires
        exec.wf(),
        exec@.result is Some,
    ensures
        r@ == info_of(exec@),
        r.remaining_script@.len() == 0 <==> exec@.rest().len() == 0,
{
    let res = exec.result().unwrap();
    ExecuteInfo {
        success: res.success,
        error: res.error,
        last_opcode: res.opcode,
        final_stack: FmtStack(exec.stack().clone()),
        remaining_script: to_asm_string(exec.remaining_script()),
        stats: *exec.stats(),
    }
}

/// Executes a script as a Tapscript with nothing on the stack.
pub fn execute_script(script: Vec<u8>) -> (r: ExecuteInfo)
    requires
        is_countable(script@, Seq::empty()),
        standard_execution(script@, Seq::empty()) is Some,
    ensures
        r@ == info_of(standard_execution(script@, Seq::empty())->0),
        r.remaining_script@.len() == 0 <==> standard_execution(
            script@,
            Seq::empty(),
        )->0.rest().len() == 0,
        r.error is None ==> r.remaining_script@.len() == 0,
{
    let witness: Vec<Vec<u8>> = Vec::new();
    assert(witness_items(witness@) =~= Seq::empty());
    execute_script_with_witness(script, witness)
}

/// Executes a script as `execute_script` does where that has an outcome.
pub fn try_execute_script(script: Vec<u8>) -> (r: Option<ExecuteInfo>)
    requires
        is_countable(script@, Seq::empty()),
    ensures
        match standard_execution(script@, Seq::empty()) {
            Some(m) => {
                &&& r is Some
                &&& r->0@ == info_of(m)
                &&& r->0.remaining_script@.len() == 0 <==> m.rest().len() == 0
                &&& r->0.error is None ==> r->0.remaining_script@.len() == 0
            },
            None => r is None,
        },
{
    let witness: Vec<Vec<u8>> = Vec::new();
    assert(witness_items(witness@) =~= Seq::empty());
    if completes(Options::default(), &bare_template(), &script, &witness) {
        Some(execute_script(script))
    } else {
        None
    }
}

fn unlimited() -> (r: Options)
    ensures
        r == without_stack_limit(),
{
    Options { enforce_stack_limit: false, ..Default::default() }
}

/// Executes a script as a Tapscript with the witness on the stack.
pub fn execute_script_with_witness(script: Vec<u8>, witness: Vec<Vec<u8>>) -> (r: ExecuteInfo)
    requires
        is_countable(script@, witness_items(witness@)),
        standard_execution(script@, witness_items(witness@)) is Some,
    ensures
        r@ == info_of(standard_execution(script@, witness_items(witness@))->0),
        r.remaining_script@.len() == 0 <==> standard_execution(
            script@,
            witness_items(witness@),
        )->0.rest().len() == 0,
        r.error is None ==> r.remaining_script@.len() == 0,
{
    let exec = execute(Options::default(), bare_template(), script, witness);
    summary(&exec)
}

/// Executes a script as `execute_script_with_witness` does where that has an outcome.
pub fn try_execute_script_with_witness(script: Vec<u8>, witness: Vec<Vec<u8>>) -> (r: Option<
    ExecuteInfo,
>)
    requires
        is_countable(script@, witness_items(witness@)),
    ensures
        match standard_execution(script@, witness_items(witness@)) {
            Some(m) => {
                &&& r is Some
                &&& r->0@ == info_of(m)
                &&& r->0.remaining_script@.len() == 0 <==> m.rest().len() == 0
                &&& r->0.error is None ==> r->0.remaining_script@.len() == 0
            },
            None => r is None,
        },
{
    if completes(Options::default(), &bare_template(), &script, &witness) {
        Some(execute_script_with_witness(script, witness))
    } else {
        None
    }
}

/// Executes a script as a Tapscript with the witness on the stack. It must come to the end of the
/// script without an error. Returns the items that it leaves.
pub fn get_final_stack(script: Vec<u8>, witness: Vec<Vec<u8>>) -> (r: Vec<Vec<u8>>)
    requires
        is_countable(script@, witness_items(witness@)),
        ends_without_error(script@, witness_items(witness@)),
    ensures
        witness_items(r@) == standard_execution(script@, witness_items(witness@))->0.stack,
        short_items(witness_items(witness@)) ==> short_items(witness_items(r@)),
{
    let exec = execute(Options::default(), bare_template(), script, witness);
    exec.stack().to_u8_array()
}

/// Executes a script as `get_final_stack` does where it comes to the end of the script without
/// an error.
pub fn try_get_final_stack(script: Vec<u8>, witness: Vec<Vec<u8>>) -> (r: Option<Vec<Vec<u8>>>)
    requires
        is_countable(script@, witness_items(witness@)),
    ensures
        r is Some == ends_without_error(script@, witness_items(witness@)),
        r is Some ==> witness_items(r->0@) == standard_execution(
            script@,
            witness_items(witness@),
        )->0.stack,
        r is Some && short_items(witness_items(witness@)) ==> short_items(witness_items(r->0@)),
{
    let script_copy = script.clone();
    assert(script_copy@ =~= script@);
    match try_execute_script_with_witness(script_copy, copy_witness(&witness)) {
        Some(info) => match info.error {
            Some(_) => None,
            None => Some(get_final_stack(script, witness)),
        },
        None => None,
    }
}

/// Executes a script as a Tapscript with the witness on the stack, and no limit on the number of
/// items.
pub fn execute_script_with_witness_unlimited_stack(
    script: Vec<u8>,
    witness: Vec<Vec<u8>>,
) -> (r: ExecuteInfo)
    requires
        is_countable(script@, witness_items(witness@)),
        unlimited_execution(script@, witness_items(witness@)) is Some,
    ensures
        r@ == info_of(unlimited_execution(script@, witness_items(witness@))->0),
        r.remaining_script@.len() == 0 <==> unlimited_execution(
            script@,
            witness_items(witness@),
        )->0.rest().len() == 0,
        r.error is None ==> r.remaining_script@.len() == 0,
{
    let exec = execute(unlimited(), bare_template(), script, witness);
    summary(&exec)
}

/// Executes a script as `execute_script_with_witness_unlimited_stack` does where that has an
/// outcome.
pub fn try_execute_script_with_witness_unlimited_stack(
    script: Vec<u8>,
    witness: Vec<Vec<u8>>,
) -> (r: Option<ExecuteInfo>)
    requires
        is_countable(script@, witness_items(witness@)),
    ensures
        match unlimited_execution(script@, witness_items(witness@)) {
            Some(m) => {
                &&& r is Some
                &&& r->0@ == info_of(m)
                &&& r->0.remaining_script@.len() == 0 <==> m.rest().len() == 0
                &&& r->0.error is None ==> r->0.remaining_script@.len() == 0
            },
            None => r is None,
        },
{
    if completes(unlimited(), &bare_template(), &script, &witness) {
        Some(execute_script_with_witness_unlimited_stack(script, witness))
    } else {
        None
    }
}

/// Executes a script as a Tapscript for a given transaction with the witness on the stack.
pub fn execute_script_with_witness_and_tx_template(
    script: Vec<u8>,
    tx_template: TxTemplate,
    witness: Vec<Vec<u8>>,
) -> (r: ExecuteInfo)
    requires
        is_countable(script@, witness_items(witness@)),
        execution(standard_options(false), tx_template@, script@, witness_items(witness@)) is Some,
    ensures
        r@ == info_of(
            execution(standard_options(false), tx_template@, script@, witness_items(witness@))->0,
        ),
        r.remaining_script@.len() == 0 <==> execution(
            standard_options(false),
            tx_template@,
            script@,
            witness_items(witness@),
        )->0.rest().len() == 0,
        r.error is None ==> r.remaining_script@.len() == 0,
{
    let exec = execute(Options::default(), tx_template, script, witness);
    summary(&exec)
}

/// Executes a script as `execute_script_with_witness_and_tx_template` does where that has an
/// outcome.
pub fn try_execute_script_with_witness_and_tx_template(
    script: Vec<u8>,
    tx_template: TxTemplate,
    witness: Vec<Vec<u8>>,
) -> (r: Option<ExecuteInfo>)
    requires
        is_countable(script@, witness_items(witness@)),
    ensures
        match execution(
            standard_options(false),
            tx_template@,
            script@,
            witness_items(witness@)) {
            Some(m) => {
                &&& r is Some
                &&& r->0@ == info_of(m)
                &&& r->0.remaining_script@.len() == 0 <==> m.rest().len() == 0
                &&& r->0.error is None ==> r->0.remaining_script@.len() == 0
            },
            None => r is None,
        },
{
    if completes(Options::default(), &tx_template, &script, &witness) {
        Some(execute_script_with_witness_and_tx_template(script, tx_template, witness))
    } else {
        None
    }
}

} // verus!
