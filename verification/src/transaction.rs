use vstd::prelude::*;

verus! {

/// An input of the spending transaction, as far as script execution and signature hashes read
/// it.
#[derive(Debug, Clone, Copy, PartialEq, Eq)]
pub struct TxInput {
    /// The id of the transaction whose output is spent, in its internal byte order.
    pub txid: [u8; 32],
    /// The index of the spent output.
    pub vout: u32,
    /// The sequence number.
    pub sequence: u32,
}

/// An output, of the spending transaction or a spent one.
#[derive(Debug)]
pub struct TxOutput {
    /// The amount in satoshis.
    pub value: u64,
    pub script_pubkey: Vec<u8>,
}

/// What an output says.
pub struct OutputData {
    pub value: u64,
    pub script_pubkey: Seq<u8>,
}

impl View for TxOutput {
    type V = OutputData;

    open spec fn view(&self) -> OutputData {
        OutputData { value: self.value, script_pubkey: self.script_pubkey@ }
    }
}

impl Clone for TxOutput {
    fn clone(&self) -> (r: Self)
        ensures
            r@ == self@,
    {
        TxOutput { value: self.value, script_pubkey: self.script_pubkey.clone() }
    }
}

/// What a list of outputs says.
pub open spec fn outputs_data(outputs: Seq<TxOutput>) -> Seq<OutputData> {
    outputs.map_values(|o: TxOutput| o@)
}

/// Copies a list of outputs.
pub fn copy_outputs(outputs: &Vec<TxOutput>) -> (r: Vec<TxOutput>)
    ensures
        outputs_data(r@) == outputs_data(outputs@),
{
    let mut out: Vec<TxOutput> = Vec::new();
    for i in 0..outputs.len()
        invariant
            out.len() == i,
            forall|j: int| 0 <= j < i ==> (#[trigger] out[j])@ == outputs[j]@,
    {
        out.push(outputs[i].clone());
    }
    assert(outputs_data(out@) =~= outputs_data(outputs@));
    out
}

/// The transaction that spends the output whose script is executed.
#[derive(Debug)]
pub struct SpendingTx {
    pub version: i32,
    /// The lock time in its consensus encoding.
    pub lock_time: u32,
    pub input: Vec<TxInput>,
    pub output: Vec<TxOutput>,
}

/// What a spending transaction says.
pub struct TxData {
    pub version: i32,
    pub lock_time: u32,
    pub input: Seq<TxInput>,
    pub output: Seq<OutputData>,
}

impl View for SpendingTx {
    type V = TxData;

    open spec fn view(&self) -> TxData {
        TxData {
            version: self.version,
            lock_time: self.lock_time,
            input: self.input@,
            output: outputs_data(self.output@),
        }
    }
}

impl Clone for SpendingTx {
    fn clone(&self) -> (r: Self)
        ensures
            r@ == self@,
    {
        let input = self.input.clone();
        assert(input@ =~= self.input@);
        SpendingTx {
            version: self.version,
            lock_time: self.lock_time,
            input,
            output: copy_outputs(&self.output),
        }
    }
}

/// The transaction that a script is executed for.
#[derive(Debug)]
pub struct TxTemplate {
    pub tx: SpendingTx,
    /// The outputs that the inputs of `tx` spend.
    pub prevouts: Vec<TxOutput>,
    /// The input whose script is executed.
    pub input_idx: usize,
    /// For Tapscript the hash of the leaf, and the annex where there is one.
    pub taproot_annex_scriptleaf: Option<([u8; 32], Option<Vec<u8>>)>,
}

/// What a transaction template says.
pub struct TemplateData {
    pub tx: TxData,
    pub prevouts: Seq<OutputData>,
    pub input_idx: usize,
    pub taproot: Option<(Seq<u8>, Option<Seq<u8>>)>,
}

impl TemplateData {
    /// The hash of the leaf, for Tapscript.
    pub open spec fn leaf(self) -> Seq<u8> {
        match self.taproot {
            Some((leaf, _)) => leaf,
            None => Seq::empty(),
        }
    }

    /// The annex, for Tapscript, where there is one.
    pub open spec fn annex(self) -> Option<Seq<u8>> {
        match self.taproot {
            Some((_, annex)) => annex,
            None => None,
        }
    }
}

/// The bytes of an annex, where there is one.
pub open spec fn annex_data(annex: Option<Vec<u8>>) -> Option<Seq<u8>> {
    match annex {
        Some(a) => Some(a@),
        None => None,
    }
}

impl View for TxTemplate {
    type V = TemplateData;

    open spec fn view(&self) -> TemplateData {
        TemplateData {
            tx: self.tx@,
            prevouts: outputs_data(self.prevouts@),
            input_idx: self.input_idx,
            taproot: match self.taproot_annex_scriptleaf {
                Some((leaf, annex)) => Some((leaf@, annex_data(annex))),
                None => None,
            },
        }
    }
}

impl Clone for TxTemplate {
    fn clone(&self) -> (r: Self)
        ensures
            r@ == self@,
    {
        let taproot = match &self.taproot_annex_scriptleaf {
            Some((leaf, annex)) => Some(
                (
                    *leaf,
                    match annex {
                        Some(a) => Some(a.clone()),
                        None => None,
                    },
                ),
            ),
            None => None,
        };
        TxTemplate {
            tx: self.tx.clone(),
            prevouts: copy_outputs(&self.prevouts),
            input_idx: self.input_idx,
            taproot_annex_scriptleaf: taproot,
        }
    }
}

} // verus!
