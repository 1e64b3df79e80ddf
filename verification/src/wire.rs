use vstd::prelude::*;
use crate::encoding::{compact_size, le_bytes, lemma_le_bytes_len};
use crate::error::{Error, HexError};
use crate::hex_text::{hex_decoding, hex_lower, lemma_hex_lower_ascii, sha256d_digest};
use crate::model::{InputModel, OutputModel, TransactionModel};
use crate::text::{byte_len, lemma_ascii_boundaries, lemma_byte_len_concat, pairs_on_char_boundaries,
    reversed_pairs_text, text_bytes};

verus! {

/// Why a serialization stops without a result.
pub enum Fault {
    /// A referenced transaction id is not 64 bytes long; the message that
    /// reports it.
    TxIdLength(Seq<char>),
    /// A script or witness item has an odd number of bytes; the message that
    /// reports it.
    OddLength(Seq<char>),
    /// A witness item is longer than 255 bytes once decoded.
    ItemTooLong,
    /// Hexadecimal text that does not decode.
    Hex(HexError),
}

/// What a step of a serialization gives: text, a refusal, or no result at
/// all (`Stuck`: the computation cannot go on, such as cutting a text inside
/// a character).
pub enum Outcome {
    Text(Seq<char>),
    Fault(Fault),
    Stuck,
}

/// `a`, then `b`: the texts are joined; the first step that gives no text decides.
pub open spec fn then(a: Outcome, b: Outcome) -> Outcome {
    match a {
        Outcome::Text(x) => match b {
            Outcome::Text(y) => Outcome::Text(x + y),
            other => other,
        },
        other => other,
    }
}

/// The steps `f(s[0])`, `f(s[1])`, ... one after the other.
pub open spec fn all_parts<A>(s: Seq<A>, f: spec_fn(A) -> Outcome) -> Outcome
    decreases s.len(),
{
    if s.len() == 0 {
        Outcome::Text(Seq::empty())
    } else {
        then(all_parts(s.drop_last(), f), f(s.last()))
    }
}

/// The text of an outcome that has one.
pub open spec fn text_of(o: Outcome) -> Seq<char> {
    match o {
        Outcome::Text(t) => t,
        _ => Seq::empty(),
    }
}

/// The message for a referenced id of the wrong length in a full serialization.
pub open spec fn reference_txid_message() -> Seq<char> {
    "The reference txid in hex format should be 64 characters long"@
}

/// The message for a referenced id of the wrong length in a signing serialization.
pub open spec fn references_txid_message() -> Seq<char> {
    "The references txid in hex format should be 64 characters long"@
}

/// The message for a signature script of odd length.
pub open spec fn script_sig_message() -> Seq<char> {
    "Length of script_sig should be a multiple of 2"@
}

/// The message for an output script of odd length.
pub open spec fn scriptpubkey_message() -> Seq<char> {
    "Length of scriptpubkey should be a multiple of 2"@
}

/// The message for a witness item of odd length.
pub open spec fn witness_message() -> Seq<char> {
    "Witness data length in hex should be a multiple of 2"@
}

/// `e` is the error that reports the fault `f`, with its message.
pub open spec fn reports(e: Error, f: Fault) -> bool {
    match f {
        Fault::TxIdLength(m) => e matches Error::TxId(s) && s@ == m,
        Fault::OddLength(m) => e matches Error::ScriptInvalid(s) && s@ == m,
        Fault::ItemTooLong => e is TryFromInt,
        Fault::Hex(h) => e == Error::Hex(h),
    }
}

/// A step that appends to a text: `r` and the text after it are what the
/// outcome `o` describes.
pub open spec fn step_done(r: Result<(), Error>, before: Seq<char>, after: Seq<char>, o: Outcome) -> bool {
    match o {
        Outcome::Text(t) => r is Ok && after == before + t,
        Outcome::Fault(f) => r matches Err(e) && reports(e, f),
        Outcome::Stuck => false,
    }
}

/// The result `r` is what the outcome `o` describes.
pub open spec fn agrees(r: Result<String, Error>, o: Outcome) -> bool {
    match o {
        Outcome::Text(t) => r matches Ok(s) && s@ == t,
        Outcome::Fault(f) => r matches Err(e) && reports(e, f),
        Outcome::Stuck => false,
    }
}

/// Two results carry the same text, or errors of the same kind and text.
pub open spec fn same_result(a: Result<String, Error>, b: Result<String, Error>) -> bool {
    match (a, b) {
        (Ok(x), Ok(y)) => x@ == y@,
        (Err(e), Err(f)) => e.same_as(f),
        _ => false,
    }
}

/// Two results that both agree with one outcome are the same.
pub proof fn lemma_agrees_same_result(a: Result<String, Error>, b: Result<String, Error>, o: Outcome)
    requires
        agrees(a, o),
        agrees(b, o),
    ensures
        same_result(a, b),
{
}

/// Lower-case hexadecimal text of the `n` low bytes of `x`, least significant first.
pub open spec fn hex_le(x: nat, n: nat) -> Seq<char> {
    hex_lower(le_bytes(x, n))
}

/// A referenced transaction id, with its byte order reversed; an id of the
/// wrong length is reported with the message `m`.
pub open spec fn txid_part(t: Seq<char>, m: Seq<char>) -> Outcome {
    if byte_len(t) != 64 {
        Outcome::Fault(Fault::TxIdLength(m))
    } else if !pairs_on_char_boundaries(text_bytes(t)) {
        Outcome::Stuck
    } else {
        Outcome::Text(reversed_pairs_text(t))
    }
}

/// A script given as hexadecimal text: its length in bytes (half the length
/// of the text) as a variable-length integer, then the text itself; an odd
/// length is reported with the message `m`.
pub open spec fn script_part(s: Seq<char>, m: Seq<char>) -> Outcome {
    if byte_len(s) % 2 != 0 {
        Outcome::Fault(Fault::OddLength(m))
    } else {
        Outcome::Text(hex_lower(compact_size(byte_len(s) / 2)) + s)
    }
}

/// An input: outpoint (reversed id, index), signature script, sequence.
pub open spec fn input_part(i: InputModel) -> Outcome {
    then(
        then(txid_part(i.txid, reference_txid_message()), Outcome::Text(hex_le(i.vout as nat, 4))),
        then(script_part(i.scriptsig, script_sig_message()), Outcome::Text(hex_le(i.sequence as nat, 4))),
    )
}

/// An output: value, then its script.
pub open spec fn output_part(o: OutputModel) -> Outcome {
    then(Outcome::Text(hex_le(o.value as nat, 8)), script_part(o.scriptpubkey, scriptpubkey_message()))
}

/// A witness item: its length in bytes as a single byte, then the item.
pub open spec fn witness_item(d: Seq<char>) -> Outcome {
    if byte_len(d) % 2 != 0 {
        Outcome::Fault(Fault::OddLength(witness_message()))
    } else if byte_len(d) / 2 > 255 {
        Outcome::Fault(Fault::ItemTooLong)
    } else {
        Outcome::Text(hex_lower(seq![(byte_len(d) / 2) as u8]) + d)
    }
}

/// `witness_item` as a step of `all_parts`.
pub open spec fn witness_item_step() -> spec_fn(Seq<char>) -> Outcome {
    |d: Seq<char>| witness_item(d)
}

/// The witness of an input: the number of items, then the items.
pub open spec fn witness_part(i: InputModel) -> Outcome {
    then(
        Outcome::Text(hex_lower(compact_size(i.witness.len()))),
        all_parts(i.witness, witness_item_step()),
    )
}

/// `input_part` as a step of `all_parts`.
pub open spec fn input_step() -> spec_fn(InputModel) -> Outcome {
    |i: InputModel| input_part(i)
}

/// `output_part` as a step of `all_parts`.
pub open spec fn output_step() -> spec_fn(OutputModel) -> Outcome {
    |o: OutputModel| output_part(o)
}

/// `witness_part` as a step of `all_parts`.
pub open spec fn witness_step() -> spec_fn(InputModel) -> Outcome {
    |i: InputModel| witness_part(i)
}

/// Some input carries witness data.
pub open spec fn has_witness(vin: Seq<InputModel>) -> bool {
    exists|k: int| 0 <= k < vin.len() && vin[k].witness.len() > 0
}

/// The start of a serialization: version, the segwit marker and flag when
/// some input has witness data, and the number of inputs.
pub open spec fn serialization_head(tx: TransactionModel) -> Seq<char> {
    hex_le((tx.version as u32) as nat, 4) + (if has_witness(tx.vin) {
        "00"@ + "01"@
    } else {
        Seq::empty()
    }) + hex_lower(compact_size(tx.vin.len()))
}

/// The inputs of a serialization, one after the other.
pub open spec fn inputs_part(vin: Seq<InputModel>) -> Outcome {
    all_parts(vin, input_step())
}

/// The number of outputs and the outputs.
pub open spec fn outputs_part(vout: Seq<OutputModel>) -> Outcome {
    then(
        Outcome::Text(hex_lower(compact_size(vout.len()))),
        all_parts(vout, output_step()),
    )
}

/// The witnesses of all inputs, when some input has one.
pub open spec fn witnesses_part(vin: Seq<InputModel>) -> Outcome {
    if has_witness(vin) {
        all_parts(vin, witness_step())
    } else {
        Outcome::Text(Seq::empty())
    }
}

/// The serialization of a whole transaction as hexadecimal text: head,
/// inputs, outputs, witnesses, lock time.
pub open spec fn serialization(tx: TransactionModel) -> Outcome {
    then(
        then(
            then(Outcome::Text(serialization_head(tx)), inputs_part(tx.vin)),
            outputs_part(tx.vout),
        ),
        then(witnesses_part(tx.vin), Outcome::Text(hex_le(tx.locktime as nat, 4))),
    )
}

/// One more step of `all_parts`.
pub proof fn lemma_all_parts_step<A>(s: Seq<A>, f: spec_fn(A) -> Outcome, k: int)
    requires
        0 <= k < s.len(),
    ensures
        all_parts(s.take(k + 1), f) == then(all_parts(s.take(k), f), f(s[k])),
{
    assert(s.take(k + 1).drop_last() =~= s.take(k));
}

/// `all_parts` over the whole sequence is `all_parts` over all of it as a prefix.
pub proof fn lemma_all_parts_full<A>(s: Seq<A>, f: spec_fn(A) -> Outcome)
    ensures
        all_parts(s.take(s.len() as int), f) == all_parts(s, f),
{
    assert(s.take(s.len() as int) =~= s);
}

/// A prefix that gives no text decides the whole.
pub proof fn lemma_all_parts_prefix<A>(s: Seq<A>, f: spec_fn(A) -> Outcome, k: int)
    requires
        0 <= k <= s.len(),
        !(all_parts(s.take(k), f) is Text),
    ensures
        all_parts(s, f) == all_parts(s.take(k), f),
    decreases s.len() - k,
{
    if k == s.len() {
        lemma_all_parts_full(s, f);
    } else {
        lemma_all_parts_step(s, f, k);
        lemma_all_parts_prefix(s, f, k + 1);
    }
}

/// The hexadecimal text decoded, hashed with double SHA-256, and written as
/// hexadecimal text again.
pub open spec fn hashed(o: Outcome) -> Outcome {
    match o {
        Outcome::Text(t) => match hex_decoding(text_bytes(t)) {
            Ok(b) => Outcome::Text(hex_lower(sha256d_digest(b))),
            Err(h) => Outcome::Fault(Fault::Hex(h)),
        },
        other => other,
    }
}

/// The digest taken of the outcome's text, when it decodes, has 32 bytes
/// (so that `hashed` gives 64 characters).
pub open spec fn digest_sized(o: Outcome) -> bool {
    match o {
        Outcome::Text(t) => match hex_decoding(text_bytes(t)) {
            Ok(b) => sha256d_digest(b).len() == 32,
            Err(_) => true,
        },
        _ => true,
    }
}

/// The digests of the three hashed parts of a signing serialization have 32 bytes.
pub open spec fn signing_digests_sized(tx: TransactionModel) -> bool {
    &&& digest_sized(all_parts(tx.vin, outpoint_step()))
    &&& digest_sized(all_parts(tx.vin, sequence_step()))
    &&& digest_sized(all_parts(tx.vout, output_step()))
}

/// Hexadecimal text has two characters, and two bytes, per byte.
pub proof fn lemma_hex_lower_len(b: Seq<u8>)
    ensures
        hex_lower(b).len() == 2 * b.len(),
        byte_len(hex_lower(b)) == 2 * b.len(),
{
    lemma_hex_lower_ascii(b);
    lemma_ascii_boundaries(hex_lower(b));
}

/// `hex_le(x, n)` has `2 * n` characters and bytes.
pub proof fn lemma_hex_le_len(x: nat, n: nat)
    ensures
        hex_le(x, n).len() == 2 * n,
        byte_len(hex_le(x, n)) == 2 * n,
{
    lemma_le_bytes_len(x, n);
    lemma_hex_lower_len(le_bytes(x, n));
}

/// A digest of 32 bytes is written as 64 characters (and bytes).
pub proof fn lemma_hashed_len(o: Outcome)
    requires
        digest_sized(o),
        hashed(o) is Text,
    ensures
        text_of(hashed(o)).len() == 64,
        byte_len(text_of(hashed(o))) == 64,
{
    let b = hex_decoding(text_bytes(text_of(o)))->Ok_0;
    lemma_hex_lower_len(sha256d_digest(b));
}

/// Each step of `all_parts` gives text when the whole does.
pub proof fn lemma_all_parts_each_text<A>(s: Seq<A>, f: spec_fn(A) -> Outcome, k: int)
    requires
        0 <= k < s.len(),
        all_parts(s, f) is Text,
    ensures
        f(s[k]) is Text,
    decreases s.len(),
{
    if k < s.len() - 1 {
        lemma_all_parts_each_text(s.drop_last(), f, k);
        assert(s.drop_last()[k] == s[k]);
    }
}

/// The script code and amounts of the input being signed.
pub open spec fn signed_input_part(input: InputModel) -> Seq<char> {
    "1976a914"@ + input.prevout.pubkeyhash + "88ac"@ + hex_le(input.prevout.value as nat, 8) + hex_le(
        input.sequence as nat,
        4,
    )
}

/// The text of a signing serialization, part by part, when it has one.
pub proof fn lemma_signing_serialization_text(tx: TransactionModel, index: int, sighash: u32)
    requires
        0 <= index < tx.vin.len(),
        segwit_signing_serialization(tx, index, sighash) is Text,
    ensures
        hashed(all_parts(tx.vin, outpoint_step())) is Text,
        hashed(all_parts(tx.vin, sequence_step())) is Text,
        outpoint_part(tx.vin[index]) is Text,
        hashed(all_parts(tx.vout, output_step())) is Text,
        text_of(segwit_signing_serialization(tx, index, sighash)) == hex_le((tx.version as u32) as nat, 4)
            + (text_of(hashed(all_parts(tx.vin, outpoint_step()))) + (text_of(
            hashed(all_parts(tx.vin, sequence_step())),
        ) + (text_of(outpoint_part(tx.vin[index])) + (signed_input_part(tx.vin[index]) + (text_of(
            hashed(all_parts(tx.vout, output_step())),
        ) + (hex_le(tx.locktime as nat, 4) + hex_le(sighash as nat, 4))))))),
{
}

/// A signing serialization has 324 bytes besides the public key hash of the
/// input being signed: version (8), two digests (64 each), outpoint (72),
/// script code framing (12), amount (16), sequence (8), a digest (64), lock
/// time (8) and sighash number (8).
pub proof fn lemma_signing_serialization_len(tx: TransactionModel, index: int, sighash: u32)
    requires
        0 <= index < tx.vin.len(),
        segwit_signing_serialization(tx, index, sighash) is Text,
        signing_digests_sized(tx),
        byte_len(text_of(txid_part(tx.vin[index].txid, references_txid_message()))) == 64,
    ensures
        byte_len(text_of(segwit_signing_serialization(tx, index, sighash))) == 324 + byte_len(
            tx.vin[index].prevout.pubkeyhash,
        ),
{
    let input = tx.vin[index];
    lemma_signing_serialization_text(tx, index, sighash);
    let hp = text_of(hashed(all_parts(tx.vin, outpoint_step())));
    let hq = text_of(hashed(all_parts(tx.vin, sequence_step())));
    let ho = text_of(hashed(all_parts(tx.vout, output_step())));
    let tp = text_of(txid_part(input.txid, references_txid_message()));
    let op = text_of(outpoint_part(input));
    let v = hex_le((tx.version as u32) as nat, 4);
    let d = signed_input_part(input);
    let t = hex_le(tx.locktime as nat, 4) + hex_le(sighash as nat, 4);
    lemma_hashed_len(all_parts(tx.vin, outpoint_step()));
    lemma_hashed_len(all_parts(tx.vin, sequence_step()));
    lemma_hashed_len(all_parts(tx.vout, output_step()));
    lemma_hex_le_len((tx.version as u32) as nat, 4);
    lemma_hex_le_len(input.vout as nat, 4);
    lemma_hex_le_len(input.prevout.value as nat, 8);
    lemma_hex_le_len(input.sequence as nat, 4);
    lemma_hex_le_len(tx.locktime as nat, 4);
    lemma_hex_le_len(sighash as nat, 4);
    reveal_strlit("1976a914");
    reveal_strlit("88ac");
    lemma_ascii_boundaries("1976a914"@);
    lemma_ascii_boundaries("88ac"@);
    assert(op == tp + hex_le(input.vout as nat, 4));
    lemma_byte_len_concat(tp, hex_le(input.vout as nat, 4));
    lemma_byte_len_concat("1976a914"@, input.prevout.pubkeyhash);
    lemma_byte_len_concat("1976a914"@ + input.prevout.pubkeyhash, "88ac"@);
    lemma_byte_len_concat("1976a914"@ + input.prevout.pubkeyhash + "88ac"@, hex_le(input.prevout.value as nat, 8));
    lemma_byte_len_concat(
        "1976a914"@ + input.prevout.pubkeyhash + "88ac"@ + hex_le(input.prevout.value as nat, 8),
        hex_le(input.sequence as nat, 4),
    );
    lemma_byte_len_concat(hex_le(tx.locktime as nat, 4), hex_le(sighash as nat, 4));
    lemma_byte_len_concat(ho, t);
    lemma_byte_len_concat(d, ho + t);
    lemma_byte_len_concat(op, d + (ho + t));
    lemma_byte_len_concat(hq, op + (d + (ho + t)));
    lemma_byte_len_concat(hp, hq + (op + (d + (ho + t))));
    lemma_byte_len_concat(v, hp + (hq + (op + (d + (ho + t)))));
}

/// The text with its byte order reversed.
pub open spec fn reversed(o: Outcome) -> Outcome {
    match o {
        Outcome::Text(t) => Outcome::Text(reversed_pairs_text(t)),
        other => other,
    }
}

/// The outpoint an input spends: the referenced id reversed, then the output index.
pub open spec fn outpoint_part(i: InputModel) -> Outcome {
    then(txid_part(i.txid, references_txid_message()), Outcome::Text(hex_le(i.vout as nat, 4)))
}

/// `outpoint_part` as a step of `all_parts`.
pub open spec fn outpoint_step() -> spec_fn(InputModel) -> Outcome {
    |i: InputModel| outpoint_part(i)
}

/// The sequence number of an input, as a step of `all_parts`.
pub open spec fn sequence_step() -> spec_fn(InputModel) -> Outcome {
    |i: InputModel| Outcome::Text(hex_le(i.sequence as nat, 4))
}

/// The text that is hashed to sign input `index` of a segwit transaction
/// (BIP 143, with SIGHASH_ALL and a pay-to-witness-public-key-hash script
/// code): version, hash of all outpoints, hash of all sequence numbers, the
/// input's outpoint, its script code, the value it spends, its sequence
/// number, hash of all outputs, lock time, and the sighash number.
pub open spec fn segwit_signing_serialization(tx: TransactionModel, index: int, sighash: u32) -> Outcome {
    let input = tx.vin[index];
    then(
        Outcome::Text(hex_le((tx.version as u32) as nat, 4)),
        then(
            hashed(all_parts(tx.vin, outpoint_step())),
            then(
                hashed(all_parts(tx.vin, sequence_step())),
                then(
                    outpoint_part(input),
                    then(
                        Outcome::Text(
                            "1976a914"@ + input.prevout.pubkeyhash + "88ac"@ + hex_le(
                                input.prevout.value as nat,
                                8,
                            ) + hex_le(input.sequence as nat, 4),
                        ),
                        then(
                            hashed(all_parts(tx.vout, output_step())),
                            Outcome::Text(hex_le(tx.locktime as nat, 4) + hex_le(sighash as nat, 4)),
                        ),
                    ),
                ),
            ),
        ),
    )
}

} // verus!
