use vstd::prelude::*;
use vstd::string::StringExecFns;
use crate::model::{Input, Output, Status, texts};
use crate::status::rfc2822_text;

verus! {

/// The value shown in the second column of a table row.
#[derive(Debug, Clone)]
pub enum Cell {
    /// A text, shown as it is.
    Text(String),
    /// A number of satoshis, shown in BTC.
    Btc(u64),
    /// A flag.
    Flag(bool),
    /// A number.
    Number(u32),
}

/// The plain value of a [`Cell`].
pub enum CellModel {
    Text(Seq<char>),
    Btc(u64),
    Flag(bool),
    Number(u32),
}

/// The plain value of a cell.
pub open spec fn cell_model(c: Cell) -> CellModel {
    match c {
        Cell::Text(s) => CellModel::Text(s@),
        Cell::Btc(v) => CellModel::Btc(v),
        Cell::Flag(b) => CellModel::Flag(b),
        Cell::Number(n) => CellModel::Number(n),
    }
}

/// The plain values of table rows: label and cell.
pub open spec fn rows_model(rows: Seq<(&'static str, Cell)>) -> Seq<(Seq<char>, CellModel)> {
    rows.map_values(|r: (&'static str, Cell)| (r.0@, cell_model(r.1)))
}

/// The row `(label, text)` when the text is not empty, and nothing otherwise.
pub open spec fn row_if_present(label: Seq<char>, text: Seq<char>) -> Seq<(Seq<char>, CellModel)> {
    if text.len() == 0 {
        Seq::empty()
    } else {
        seq![(label, CellModel::Text(text))]
    }
}

/// The texts joined with single spaces between them.
pub open spec fn join_with_spaces(list: Seq<Seq<char>>) -> Seq<char>
    decreases list.len(),
{
    if list.len() == 0 {
        Seq::empty()
    } else if list.len() == 1 {
        list[0]
    } else {
        join_with_spaces(list.drop_last()) + " "@ + list.last()
    }
}

/// The texts joined with single spaces between them.
pub fn join_spaced(list: &Vec<String>) -> (r: String)
    ensures
        r@ == join_with_spaces(texts(list@)),
{
    let mut res = String::new();
    let n: usize = list.len();
    let mut i: usize = 0;
    assert(texts(list@).take(0) =~= Seq::<Seq<char>>::empty());
    while i < n
        invariant
            i <= n,
            n == list@.len(),
            res@ == join_with_spaces(texts(list@).take(i as int)),
        decreases n - i,
    {
        assert(texts(list@).take(i + 1).drop_last() =~= texts(list@).take(i as int));
        assert(texts(list@)[i as int] == list@[i as int]@);
        if i != 0 {
            res.append(" ");
        }
        res.append(list[i].as_str());
        proof {
            if i == 0 {
                assert(res@ =~= texts(list@).take(1)[0]);
            }
        }
        i = i + 1;
    }
    assert(texts(list@).take(n as int) =~= texts(list@));
    res
}

/// Appends `(label, text)` when the text is not empty.
fn push_if_present(rows: &mut Vec<(&'static str, Cell)>, label: &'static str, text: &String)
    ensures
        rows_model(final(rows)@) == rows_model(old(rows)@) + row_if_present(label@, text@),
{
    let ghost before = rows@;
    if text.as_str().unicode_len() != 0 {
        rows.push((label, Cell::Text(text.clone())));
        assert(rows_model(rows@) =~= rows_model(before) + row_if_present(label@, text@));
    } else {
        assert(rows_model(rows@) =~= rows_model(before) + row_if_present(label@, text@));
    }
}

impl Output {
    /// The rows of the table that shows the output: each script field that
    /// is not empty, then the value in BTC.
    pub fn table_rows(&self) -> (r: Vec<(&'static str, Cell)>)
        ensures
            rows_model(r@) == row_if_present("ScriptPubKey"@, self.scriptpubkey@) + row_if_present(
                "ScriptPubKey ASM"@,
                self.scriptpubkey_asm@,
            ) + row_if_present("ScriptPubKey Type"@, self.scriptpubkey_type@) + row_if_present(
                "ScriptPubKey Address"@,
                self.scriptpubkey_address@,
            ) + row_if_present("PubKeyHash"@, self.pubkeyhash@) + seq![
                ("Value (BTC)"@, CellModel::Btc(self.value)),
            ],
    {
        let mut rows: Vec<(&'static str, Cell)> = Vec::new();
        assert(rows_model(rows@) =~= Seq::<(Seq<char>, CellModel)>::empty());
        push_if_present(&mut rows, "ScriptPubKey", &self.scriptpubkey);
        push_if_present(&mut rows, "ScriptPubKey ASM", &self.scriptpubkey_asm);
        push_if_present(&mut rows, "ScriptPubKey Type", &self.scriptpubkey_type);
        push_if_present(&mut rows, "ScriptPubKey Address", &self.scriptpubkey_address);
        push_if_present(&mut rows, "PubKeyHash", &self.pubkeyhash);
        let ghost before = rows@;
        rows.push(("Value (BTC)", Cell::Btc(self.value)));
        assert(rows_model(rows@) =~= rows_model(before) + seq![("Value (BTC)"@, CellModel::Btc(self.value))]);
        rows
    }
}

impl Input {
    /// The rows of the table that shows the input: id, the output index
    /// shown as an amount in BTC, each script field that is not empty, the
    /// witness items joined with spaces (when there are any), whether it is a
    /// coinbase, and the sequence number.
    pub fn table_rows(&self) -> (r: Vec<(&'static str, Cell)>)
        ensures
            rows_model(r@) == seq![
                ("Input Tx ID"@, CellModel::Text(self.txid@)),
                ("Amount (BTC)"@, CellModel::Btc(self.vout as u64)),
            ] + row_if_present("ScriptSig"@, self.scriptsig@) + row_if_present(
                "ScriptSig ASM"@,
                self.scriptsig_asm@,
            ) + (if self.witness@.len() == 0 {
                Seq::empty()
            } else {
                seq![("Witness"@, CellModel::Text(join_with_spaces(texts(self.witness@))))]
            }) + row_if_present("Inner Redeemscript ASM"@, self.inner_redeemscript_asm@) + seq![
                ("Is Coinbase"@, CellModel::Flag(self.is_coinbase)),
                ("Sequence"@, CellModel::Number(self.sequence)),
            ],
    {
        let mut rows: Vec<(&'static str, Cell)> = Vec::new();
        rows.push(("Input Tx ID", Cell::Text(self.txid.clone())));
        rows.push(("Amount (BTC)", Cell::Btc(self.vout as u64)));
        assert(rows_model(rows@) =~= seq![
            ("Input Tx ID"@, CellModel::Text(self.txid@)),
            ("Amount (BTC)"@, CellModel::Btc(self.vout as u64)),
        ]);
        push_if_present(&mut rows, "ScriptSig", &self.scriptsig);
        push_if_present(&mut rows, "ScriptSig ASM", &self.scriptsig_asm);
        let ghost before = rows@;
        if self.witness.len() != 0 {
            rows.push(("Witness", Cell::Text(join_spaced(&self.witness))));
        }
        assert(rows_model(rows@) =~= rows_model(before) + (if self.witness@.len() == 0 {
            Seq::empty()
        } else {
            seq![("Witness"@, CellModel::Text(join_with_spaces(texts(self.witness@))))]
        }));
        push_if_present(&mut rows, "Inner Redeemscript ASM", &self.inner_redeemscript_asm);
        let ghost before2 = rows@;
        rows.push(("Is Coinbase", Cell::Flag(self.is_coinbase)));
        rows.push(("Sequence", Cell::Number(self.sequence)));
        assert(rows_model(rows@) =~= rows_model(before2) + seq![
            ("Is Coinbase"@, CellModel::Flag(self.is_coinbase)),
            ("Sequence"@, CellModel::Number(self.sequence)),
        ]);
        rows
    }
}

impl Status {
    /// The rows of the table that shows the status: confirmed, block height,
    /// block hash, and the block time as an RFC 2822 date (empty when
    /// unconfirmed).
    pub fn table_rows(&self) -> (r: Vec<(&'static str, Cell)>)
        ensures
            rows_model(r@) == seq![
                ("Confirmed: "@, CellModel::Flag(self.confirmed)),
                ("Block Height: "@, CellModel::Number(self.block_height)),
                ("Block Hash: "@, CellModel::Text(self.block_hash@)),
                ("Timestamp "@, CellModel::Text(
                    if self.confirmed {
                        rfc2822_text(self.block_time)
                    } else {
                        Seq::empty()
                    },
                )),
            ],
    {
        let timestamp = self.timestamp().unwrap();
        let mut rows: Vec<(&'static str, Cell)> = Vec::new();
        rows.push(("Confirmed: ", Cell::Flag(self.confirmed)));
        rows.push(("Block Height: ", Cell::Number(self.block_height)));
        rows.push(("Block Hash: ", Cell::Text(self.block_hash.clone())));
        rows.push(("Timestamp ", Cell::Text(timestamp)));
        assert(rows_model(rows@) =~= seq![
            ("Confirmed: "@, CellModel::Flag(self.confirmed)),
            ("Block Height: "@, CellModel::Number(self.block_height)),
            ("Block Hash: "@, CellModel::Text(self.block_hash@)),
            ("Timestamp "@, CellModel::Text(
                if self.confirmed {
                    rfc2822_text(self.block_time)
                } else {
                    Seq::empty()
                },
            )),
        ]);
        rows
    }
}

} // verus!
