use vstd::prelude::*;

verus! {

/// A transaction output as Blockstream reports it.
#[derive(Debug, Clone)]
pub struct Output {
    /// ScriptPubKey, as hexadecimal text.
    pub scriptpubkey: String,
    /// ScriptPubKey in assembly notation.
    pub scriptpubkey_asm: String,
    /// ScriptPubKey kind ("p2pkh", "p2sh", "v0_p2wpkh", ...).
    pub scriptpubkey_type: String,
    /// The address the output pays to.
    pub scriptpubkey_address: String,
    /// Public key hash, as hexadecimal text.
    pub pubkeyhash: String,
    /// Value in satoshis.
    pub value: u64,
}

/// A transaction input as Blockstream reports it.
#[derive(Debug, Clone)]
pub struct Input {
    /// Id of the transaction whose output is spent.
    pub txid: String,
    /// Index of the spent output in that transaction.
    pub vout: u32,
    /// The spent output.
    pub prevout: Output,
    /// ScriptSig, as hexadecimal text.
    pub scriptsig: String,
    /// ScriptSig in assembly notation.
    pub scriptsig_asm: String,
    /// Witness items, each as hexadecimal text.
    pub witness: Vec<String>,
    /// Whether the input is a coinbase.
    pub is_coinbase: bool,
    /// Sequence number.
    pub sequence: u32,
    /// Inner redeem script in assembly notation.
    pub inner_redeemscript_asm: String,
}

/// Confirmation status of a transaction.
#[derive(Debug, Clone)]
pub struct Status {
    /// Whether the transaction is in a block.
    pub confirmed: bool,
    /// Height of that block.
    pub block_height: u32,
    /// Hash of that block.
    pub block_hash: String,
    /// Time of that block, in seconds since the Unix epoch.
    pub block_time: u32,
}

/// A transaction as Blockstream reports it.
#[derive(Debug, Clone)]
pub struct BTransaction {
    /// Transaction id.
    pub txid: String,
    /// Version.
    pub version: i32,
    /// Lock time.
    pub locktime: u32,
    /// Inputs.
    pub vin: Vec<Input>,
    /// Outputs.
    pub vout: Vec<Output>,
    /// Size in bytes.
    pub size: u64,
    /// Weight.
    pub weight: u64,
    /// Fee in satoshis.
    pub fee: u64,
    /// Confirmation status.
    pub status: Status,
}

/// The plain values of an [`Output`].
pub struct OutputModel {
    pub scriptpubkey: Seq<char>,
    pub scriptpubkey_asm: Seq<char>,
    pub scriptpubkey_type: Seq<char>,
    pub scriptpubkey_address: Seq<char>,
    pub pubkeyhash: Seq<char>,
    pub value: u64,
}

/// The plain values of an [`Input`].
pub struct InputModel {
    pub txid: Seq<char>,
    pub vout: u32,
    pub prevout: OutputModel,
    pub scriptsig: Seq<char>,
    pub scriptsig_asm: Seq<char>,
    pub witness: Seq<Seq<char>>,
    pub is_coinbase: bool,
    pub sequence: u32,
    pub inner_redeemscript_asm: Seq<char>,
}

/// The plain values of a [`Status`].
pub struct StatusModel {
    pub confirmed: bool,
    pub block_height: u32,
    pub block_hash: Seq<char>,
    pub block_time: u32,
}

/// The plain values of a [`BTransaction`].
pub struct TransactionModel {
    pub txid: Seq<char>,
    pub version: i32,
    pub locktime: u32,
    pub vin: Seq<InputModel>,
    pub vout: Seq<OutputModel>,
    pub size: u64,
    pub weight: u64,
    pub fee: u64,
    pub status: StatusModel,
}

impl View for Output {
    type V = OutputModel;

    open spec fn view(&self) -> OutputModel {
        OutputModel {
            scriptpubkey: self.scriptpubkey@,
            scriptpubkey_asm: self.scriptpubkey_asm@,
            scriptpubkey_type: self.scriptpubkey_type@,
            scriptpubkey_address: self.scriptpubkey_address@,
            pubkeyhash: self.pubkeyhash@,
            value: self.value,
        }
    }
}

/// The texts of a list of strings.
pub open spec fn texts(v: Seq<String>) -> Seq<Seq<char>> {
    v.map_values(|s: String| s@)
}

impl View for Input {
    type V = InputModel;

    open spec fn view(&self) -> InputModel {
        InputModel {
            txid: self.txid@,
            vout: self.vout,
            prevout: self.prevout@,
            scriptsig: self.scriptsig@,
            scriptsig_asm: self.scriptsig_asm@,
            witness: texts(self.witness@),
            is_coinbase: self.is_coinbase,
            sequence: self.sequence,
            inner_redeemscript_asm: self.inner_redeemscript_asm@,
        }
    }
}

/// The plain values of a list of inputs.
pub open spec fn input_models(v: Seq<Input>) -> Seq<InputModel> {
    v.map_values(|i: Input| i@)
}

/// The plain values of a list of outputs.
pub open spec fn output_models(v: Seq<Output>) -> Seq<OutputModel> {
    v.map_values(|o: Output| o@)
}

impl View for Status {
    type V = StatusModel;

    open spec fn view(&self) -> StatusModel {
        StatusModel {
            confirmed: self.confirmed,
            block_height: self.block_height,
            block_hash: self.block_hash@,
            block_time: self.block_time,
        }
    }
}

impl View for BTransaction {
    type V = TransactionModel;

    open spec fn view(&self) -> TransactionModel {
        TransactionModel {
            txid: self.txid@,
            version: self.version,
            locktime: self.locktime,
            vin: input_models(self.vin@),
            vout: output_models(self.vout@),
            size: self.size,
            weight: self.weight,
            fee: self.fee,
            status: self.status@,
        }
    }
}

/// An output with every text empty and a value of zero.
pub open spec fn empty_output() -> OutputModel {
    OutputModel {
        scriptpubkey: Seq::empty(),
        scriptpubkey_asm: Seq::empty(),
        scriptpubkey_type: Seq::empty(),
        scriptpubkey_address: Seq::empty(),
        pubkeyhash: Seq::empty(),
        value: 0,
    }
}

impl Default for Output {
    fn default() -> (r: Self)
        ensures
            r@ == empty_output(),
    {
        Output {
            scriptpubkey: String::new(),
            scriptpubkey_asm: String::new(),
            scriptpubkey_type: String::new(),
            scriptpubkey_address: String::new(),
            pubkeyhash: String::new(),
            value: 0,
        }
    }
}

impl Default for Input {
    /// An input with empty texts and witness, a default spent output, and the
    /// final sequence number 0xFFFFFFFF.
    fn default() -> (r: Self)
        ensures
            r@ == (InputModel {
                txid: Seq::empty(),
                vout: 0,
                prevout: empty_output(),
                scriptsig: Seq::empty(),
                scriptsig_asm: Seq::empty(),
                witness: Seq::empty(),
                is_coinbase: false,
                sequence: 0xFFFF_FFFF,
                inner_redeemscript_asm: Seq::empty(),
            }),
    {
        let r = Input {
            txid: String::new(),
            vout: 0,
            prevout: Output::default(),
            scriptsig: String::new(),
            scriptsig_asm: String::new(),
            witness: Vec::new(),
            is_coinbase: false,
            sequence: 0xFFFF_FFFF,
            inner_redeemscript_asm: String::new(),
        };
        assert(texts(r.witness@) =~= Seq::<Seq<char>>::empty());
        r
    }
}

impl Default for Status {
    fn default() -> (r: Self)
        ensures
            r@ == (StatusModel {
                confirmed: false,
                block_height: 0,
                block_hash: Seq::empty(),
                block_time: 0,
            }),
    {
        Status { confirmed: false, block_height: 0, block_hash: String::new(), block_time: 0 }
    }
}

impl Default for BTransaction {
    fn default() -> (r: Self)
        ensures
            r@.txid == Seq::<char>::empty(),
            r@.version == 0,
            r@.locktime == 0,
            r@.vin == Seq::<InputModel>::empty(),
            r@.vout == Seq::<OutputModel>::empty(),
            r@.size == 0,
            r@.weight == 0,
            r@.fee == 0,
            r@.status == (StatusModel {
                confirmed: false,
                block_height: 0,
                block_hash: Seq::empty(),
                block_time: 0,
            }),
    {
        let r = BTransaction {
            txid: String::new(),
            version: 0,
            locktime: 0,
            vin: Vec::new(),
            vout: Vec::new(),
            size: 0,
            weight: 0,
            fee: 0,
            status: Status::default(),
        };
        assert(r@.vin =~= Seq::<InputModel>::empty());
        assert(r@.vout =~= Seq::<OutputModel>::empty());
        r
    }
}

} // verus!

verus! {

impl Output {
    /// A field-by-field copy.
    pub fn copy(&self) -> (r: Output)
        ensures
            r@ == self@,
    {
        Output {
            scriptpubkey: self.scriptpubkey.clone(),
            scriptpubkey_asm: self.scriptpubkey_asm.clone(),
            scriptpubkey_type: self.scriptpubkey_type.clone(),
            scriptpubkey_address: self.scriptpubkey_address.clone(),
            pubkeyhash: self.pubkeyhash.clone(),
            value: self.value,
        }
    }
}

impl Status {
    /// A field-by-field copy.
    pub fn copy(&self) -> (r: Status)
        ensures
            r@ == self@,
    {
        Status {
            confirmed: self.confirmed,
            block_height: self.block_height,
            block_hash: self.block_hash.clone(),
            block_time: self.block_time,
        }
    }
}

/// The input without its witness and, if `unlocking` is set, without its
/// signature script either.
pub open spec fn stripped_input(i: InputModel, unlocking: bool) -> InputModel {
    InputModel {
        witness: Seq::empty(),
        scriptsig: if unlocking { Seq::empty() } else { i.scriptsig },
        scriptsig_asm: if unlocking { Seq::empty() } else { i.scriptsig_asm },
        ..i
    }
}

/// The transaction with every input stripped as `stripped_input` says.
pub open spec fn stripped(tx: TransactionModel, unlocking: bool) -> TransactionModel {
    TransactionModel { vin: tx.vin.map_values(|i: InputModel| stripped_input(i, unlocking)), ..tx }
}

impl Input {
    /// A copy without the witness and, if `unlocking` is set, without the
    /// signature script either.
    pub fn stripped_copy(&self, unlocking: bool) -> (r: Input)
        ensures
            r@ == stripped_input(self@, unlocking),
    {
        let r = Input {
            txid: self.txid.clone(),
            vout: self.vout,
            prevout: self.prevout.copy(),
            scriptsig: if unlocking { String::new() } else { self.scriptsig.clone() },
            scriptsig_asm: if unlocking { String::new() } else { self.scriptsig_asm.clone() },
            witness: Vec::new(),
            is_coinbase: self.is_coinbase,
            sequence: self.sequence,
            inner_redeemscript_asm: self.inner_redeemscript_asm.clone(),
        };
        assert(texts(r.witness@) =~= Seq::<Seq<char>>::empty());
        r
    }

    /// A field-by-field copy.
    pub fn copy(&self) -> (r: Input)
        ensures
            r@ == self@,
    {
        let mut witness: Vec<String> = Vec::new();
        let n: usize = self.witness.len();
        let mut k: usize = 0;
        while k < n
            invariant
                k <= n,
                n == self.witness@.len(),
                witness@.len() == k,
                forall|q: int| 0 <= q < k ==> #[trigger] witness@[q]@ == self.witness@[q]@,
            decreases n - k,
        {
            witness.push(self.witness[k].clone());
            k = k + 1;
        }
        assert(texts(witness@) =~= texts(self.witness@));
        Input {
            txid: self.txid.clone(),
            vout: self.vout,
            prevout: self.prevout.copy(),
            scriptsig: self.scriptsig.clone(),
            scriptsig_asm: self.scriptsig_asm.clone(),
            witness,
            is_coinbase: self.is_coinbase,
            sequence: self.sequence,
            inner_redeemscript_asm: self.inner_redeemscript_asm.clone(),
        }
    }
}

impl BTransaction {
    /// A copy without witness data and, if `unlocking` is set, without
    /// signature scripts either.
    pub fn stripped_copy(&self, unlocking: bool) -> (r: BTransaction)
        ensures
            r@ == stripped(self@, unlocking),
    {
        let mut vin: Vec<Input> = Vec::new();
        let n: usize = self.vin.len();
        let mut k: usize = 0;
        while k < n
            invariant
                k <= n,
                n == self.vin@.len(),
                vin@.len() == k,
                forall|q: int| 0 <= q < k ==> #[trigger] vin@[q]@ == stripped_input(self.vin@[q]@, unlocking),
            decreases n - k,
        {
            vin.push(self.vin[k].stripped_copy(unlocking));
            k = k + 1;
        }
        let mut vout: Vec<Output> = Vec::new();
        let m: usize = self.vout.len();
        let mut j: usize = 0;
        while j < m
            invariant
                j <= m,
                m == self.vout@.len(),
                vout@.len() == j,
                forall|q: int| 0 <= q < j ==> #[trigger] vout@[q]@ == self.vout@[q]@,
            decreases m - j,
        {
            vout.push(self.vout[j].copy());
            j = j + 1;
        }
        let r = BTransaction {
            txid: self.txid.clone(),
            version: self.version,
            locktime: self.locktime,
            vin,
            vout,
            size: self.size,
            weight: self.weight,
            fee: self.fee,
            status: self.status.copy(),
        };
        assert(r@.vin =~= stripped(self@, unlocking).vin);
        assert(r@.vout =~= self@.vout);
        r
    }

    /// A field-by-field copy.
    pub fn copy(&self) -> (r: BTransaction)
        ensures
            r@ == self@,
    {
        let mut vin: Vec<Input> = Vec::new();
        let n: usize = self.vin.len();
        let mut k: usize = 0;
        while k < n
            invariant
                k <= n,
                n == self.vin@.len(),
                vin@.len() == k,
                forall|q: int| 0 <= q < k ==> #[trigger] vin@[q]@ == self.vin@[q]@,
            decreases n - k,
        {
            vin.push(self.vin[k].copy());
            k = k + 1;
        }
        let mut vout: Vec<Output> = Vec::new();
        let m: usize = self.vout.len();
        let mut j: usize = 0;
        while j < m
            invariant
                j <= m,
                m == self.vout@.len(),
                vout@.len() == j,
                forall|q: int| 0 <= q < j ==> #[trigger] vout@[q]@ == self.vout@[q]@,
            decreases m - j,
        {
            vout.push(self.vout[j].copy());
            j = j + 1;
        }
        let r = BTransaction {
            txid: self.txid.clone(),
            version: self.version,
            locktime: self.locktime,
            vin,
            vout,
            size: self.size,
            weight: self.weight,
            fee: self.fee,
            status: self.status.copy(),
        };
        assert(r@.vin =~= self@.vin);
        assert(r@.vout =~= self@.vout);
        r
    }
}

} // verus!
