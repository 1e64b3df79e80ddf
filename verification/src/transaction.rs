use vstd::prelude::*;
use vstd::utf8::*;
use vstd::string::StringExecFns;
use crate::encoding::{compact_size, le_bytes_of};
use crate::error::Error;
use crate::model::{BTransaction, Input, InputModel, Output, OutputModel, input_models, output_models};
use crate::hex_text::{hex_encode, hex_lower};
use crate::wire::{Outcome, then, text_of, all_parts, agrees, step_done, hex_le, txid_part, script_part, input_part, output_part, witness_item, witness_part, witness_item_step, input_step, output_step, witness_step, has_witness, serialization_head, inputs_part, outputs_part, witnesses_part, serialization, reference_txid_message, script_sig_message, lemma_all_parts_step, lemma_all_parts_full, lemma_all_parts_prefix};
use crate::text::{byte_len, lemma_boundary_in_prefix, lemma_text_bytes_concat, pairs_on_char_boundaries, reverse_pairs, reversed_pairs_text, text_bytes};

verus! {

broadcast use vstd::utf8::encode_utf8_valid_utf8, vstd::utf8::encode_utf8_decode_utf8,
    vstd::string::to_string_from_display_ensures_for_str;

impl BTransaction {
    /// Reverses the byte order of hexadecimal text: the two-character groups
    /// (two bytes each) come out last first. A text with an odd number of
    /// bytes is refused with `ScriptInvalid`.
    pub fn hex_reverse_byte_order(hex_string: &String) -> (r: Result<String, Error>)
        requires
            byte_len(hex_string@) % 2 == 0 ==> pairs_on_char_boundaries(text_bytes(hex_string@)),
        ensures
            byte_len(hex_string@) % 2 != 0 <==> r matches Err(Error::ScriptInvalid(m)),
            byte_len(hex_string@) % 2 != 0 ==> (r matches Err(Error::ScriptInvalid(m))
                && m@ == "The hex string should have a length that is a multiple of 2"@),
            byte_len(hex_string@) % 2 == 0 ==> (r matches Ok(s) && text_bytes(s@) == reverse_pairs(
                text_bytes(hex_string@),
            ) && s@ == reversed_pairs_text(hex_string@)),
    {
        let s: &str = hex_string.as_str();
        let len: usize = s.as_bytes().len();
        if len % 2 != 0 {
            return Err(
                Error::ScriptInvalid(
                    "The hex string should have a length that is a multiple of 2".to_string(),
                ),
            );
        }
        let ghost b = text_bytes(hex_string@);
        assert(text_bytes(s@) == b);
        let mut encoded = String::new();
        let mut i: usize = 0;
        assert(text_bytes(encoded@) =~= reverse_pairs(b).take(0));
        while i < len / 2
            invariant
                i <= len / 2,
                len == b.len(),
                len % 2 == 0,
                text_bytes(s@) == b,
                valid_utf8(b),
                pairs_on_char_boundaries(b),
                text_bytes(encoded@) == reverse_pairs(b).take(2 * i),
            decreases len / 2 - i,
        {
            let ri: usize = len - i * 2 - 2;
            assert(is_char_boundary(b, ri + 2));
            assert(is_char_boundary(b, ri as int));
            let (left, _rest) = s.split_at(ri + 2);
            proof {
                lemma_boundary_in_prefix(b, ri + 2, ri as int);
                assert(text_bytes(left@) =~= b.subrange(0, ri + 2));
            }
            let (_front, piece) = left.split_at(ri);
            let ghost before = encoded@;
            proof {
                assert(text_bytes(piece@) =~= b.subrange(ri as int, ri + 2));
                lemma_text_bytes_concat(before, piece@);
            }
            encoded.append(piece);
            i = i + 1;
            assert(text_bytes(encoded@) =~= reverse_pairs(b).take(2 * i));
        }
        assert(reverse_pairs(b).take(2 * i) =~= reverse_pairs(b));
        Ok(encoded)
    }

    /// Bitcoin's variable-length integer encoding of a count: one byte below
    /// 0xFD, otherwise the marker 0xFD, 0xFE or 0xFF and then two, four or
    /// eight little-endian bytes.
    pub fn variable_length_integer_encoding(num: usize) -> (r: Result<Vec<u8>, Error>)
        ensures
            r matches Ok(v) && v@ == compact_size(num as nat),
    {
        if num < 0xFD {
            Ok(vec![num as u8])
        } else if num <= 0xFFFF {
            let mut v: Vec<u8> = vec![0xFDu8];
            let mut rest = le_bytes_of(num as u64, 2);
            v.append(&mut rest);
            Ok(v)
        } else if num as u64 <= 0xFFFF_FFFFu64 {
            let mut v: Vec<u8> = vec![0xFEu8];
            let mut rest = le_bytes_of(num as u64, 4);
            v.append(&mut rest);
            Ok(v)
        } else {
            let mut v: Vec<u8> = vec![0xFFu8];
            let mut rest = le_bytes_of(num as u64, 8);
            v.append(&mut rest);
            Ok(v)
        }
    }
}


/// Appends the lower-case hexadecimal text of the bytes.
fn push_hex(res: &mut String, bytes: &[u8])
    ensures
        final(res)@ == old(res)@ + hex_lower(bytes@),
{
    let h = hex_encode(bytes);
    res.append(h.as_str());
}

/// Appends the hexadecimal text of the `n` low bytes of `x`, least significant first.
pub(crate) fn push_le(res: &mut String, x: u64, n: usize)
    requires
        n <= 8,
    ensures
        final(res)@ == old(res)@ + hex_le(x as nat, n as nat),
{
    let b = le_bytes_of(x, n);
    push_hex(res, b.as_slice());
}

/// Appends the hexadecimal text of a variable-length integer.
fn push_compact(res: &mut String, n: usize)
    ensures
        final(res)@ == old(res)@ + hex_lower(compact_size(n as nat)),
{
    match BTransaction::variable_length_integer_encoding(n) {
        Ok(v) => push_hex(res, v.as_slice()),
        Err(_) => {},
    }
}

/// Appends a referenced transaction id with its byte order reversed, or
/// refuses an id that is not 64 bytes long with `TxId(message)`.
pub(crate) fn push_txid(res: &mut String, txid: &String, message: &str) -> (r: Result<(), Error>)
    requires
        !(txid_part(txid@, message@) is Stuck),
    ensures
        step_done(r, old(res)@, final(res)@, txid_part(txid@, message@)),
        r is Ok ==> byte_len(text_of(txid_part(txid@, message@))) == 64,
{
    let n: usize = txid.as_str().as_bytes().len();
    if n != 64 {
        return Err(Error::TxId(message.to_string()));
    }
    match BTransaction::hex_reverse_byte_order(txid) {
        Ok(rev) => {
            res.append(rev.as_str());
            Ok(())
        },
        Err(e) => Err(e),
    }
}

/// Appends a script (hexadecimal text) preceded by its length in bytes, or
/// refuses a text of odd length with `ScriptInvalid(message)`.
fn push_script(res: &mut String, script: &String, message: &str) -> (r: Result<(), Error>)
    ensures
        step_done(r, old(res)@, final(res)@, script_part(script@, message@)),
{
    let n: usize = script.as_str().as_bytes().len();
    if n % 2 != 0 {
        return Err(Error::ScriptInvalid(message.to_string()));
    }
    let ghost start = res@;
    push_compact(res, n / 2);
    res.append(script.as_str());
    assert(res@ =~= start + (hex_lower(compact_size(byte_len(script@) / 2)) + script@));
    Ok(())
}

/// Appends an input of a full serialization.
fn push_input(res: &mut String, input: &Input) -> (r: Result<(), Error>)
    requires
        !(input_part(input@) is Stuck),
    ensures
        step_done(r, old(res)@, final(res)@, input_part(input@)),
{
    let ghost start = res@;
    let ghost t1 = text_of(txid_part(input.txid@, reference_txid_message()));
    let ghost t2 = text_of(script_part(input.scriptsig@, script_sig_message()));
    match push_txid(res, &input.txid, "The reference txid in hex format should be 64 characters long") {
        Ok(()) => {},
        Err(e) => return Err(e),
    }
    assert(txid_part(input.txid@, reference_txid_message()) == Outcome::Text(t1));
    assert(res@ == start + t1);
    push_le(res, input.vout as u64, 4);
    let ghost mid = res@;
    match push_script(res, &input.scriptsig, "Length of script_sig should be a multiple of 2") {
        Ok(()) => {},
        Err(e) => return Err(e),
    }
    assert(script_part(input.scriptsig@, script_sig_message()) == Outcome::Text(t2));
    assert(res@ == mid + t2);
    push_le(res, input.sequence as u64, 4);
    assert(res@ =~= start + ((t1 + hex_le(input.vout as nat, 4)) + (t2 + hex_le(input.sequence as nat, 4))));
    Ok(())
}

/// Appends an output: value, then script.
pub(crate) fn push_output(res: &mut String, output: &Output) -> (r: Result<(), Error>)
    ensures
        step_done(r, old(res)@, final(res)@, output_part(output@)),
{
    let ghost start = res@;
    push_le(res, output.value, 8);
    match push_script(res, &output.scriptpubkey, "Length of scriptpubkey should be a multiple of 2") {
        Ok(()) => {},
        Err(e) => return Err(e),
    }
    assert(res@ =~= start + (hex_le(output.value as nat, 8) + (hex_lower(compact_size(byte_len(output.scriptpubkey@) / 2)) + output.scriptpubkey@)));
    Ok(())
}

/// Appends a witness item: its decoded length as one byte, then the item.
fn push_witness_item(res: &mut String, item: &String) -> (r: Result<(), Error>)
    ensures
        step_done(r, old(res)@, final(res)@, witness_item(item@)),
{
    let n: usize = item.as_str().as_bytes().len();
    if n % 2 != 0 {
        return Err(Error::ScriptInvalid("Witness data length in hex should be a multiple of 2".to_string()));
    }
    if n / 2 > 255 {
        return Err(Error::TryFromInt);
    }
    let len_byte: u8 = (n / 2) as u8;
    let one: Vec<u8> = vec![len_byte];
    assert(one@ =~= seq![(byte_len(item@) / 2) as u8]);
    let ghost start = res@;
    push_hex(res, one.as_slice());
    res.append(item.as_str());
    assert(res@ =~= start + (hex_lower(one@) + item@));
    Ok(())
}

/// Appends the witness of an input: the number of items, then the items.
fn push_witness(res: &mut String, input: &Input) -> (r: Result<(), Error>)
    ensures
        step_done(r, old(res)@, final(res)@, witness_part(input@)),
{
    let ghost start = res@;
    let ghost items = input@.witness;
    let count: usize = input.witness.len();
    push_compact(res, count);
    let ghost base = res@;
    let ghost mut acc: Seq<char> = Seq::empty();
    let mut j: usize = 0;
    assert(items.take(0) =~= Seq::<Seq<char>>::empty());
    while j < count
        invariant
            j <= count,
            count == input.witness@.len(),
            items == input@.witness,
            items.len() == count,
            base == start + hex_lower(compact_size(count as nat)),
            res@ == base + acc,
            all_parts(items.take(j as int), witness_item_step()) == Outcome::Text(acc),
        decreases count - j,
    {
        let ghost before = res@;
        proof {
            lemma_all_parts_step(items, witness_item_step(), j as int);
            assert(items[j as int] == input.witness@[j as int]@);
        }
        match push_witness_item(res, &input.witness[j]) {
            Ok(()) => {},
            Err(e) => {
                proof {
                    lemma_all_parts_prefix(items, witness_item_step(), j + 1);
                }
                return Err(e);
            },
        }
        proof {
            acc = acc + text_of(witness_item(items[j as int]));
            assert(res@ =~= base + acc);
        }
        j = j + 1;
    }
    proof {
        lemma_all_parts_full(items, witness_item_step());
    }
    assert(res@ =~= start + (hex_lower(compact_size(count as nat)) + acc));
    Ok(())
}

/// Appends the inputs one after the other.
fn push_inputs(res: &mut String, vin: &Vec<Input>) -> (r: Result<(), Error>)
    requires
        !(inputs_part(input_models(vin@)) is Stuck),
    ensures
        step_done(r, old(res)@, final(res)@, inputs_part(input_models(vin@))),
{
    let ghost m = input_models(vin@);
    let ghost base = res@;
    let ghost mut acc: Seq<char> = Seq::empty();
    let n: usize = vin.len();
    assert(m.take(0) =~= Seq::<InputModel>::empty());
    let mut i: usize = 0;
    while i < n
        invariant
            i <= n,
            n == vin@.len(),
            m == input_models(vin@),
            m.len() == n,
            !(all_parts(m, input_step()) is Stuck),
            res@ == base + acc,
            all_parts(m.take(i as int), input_step()) == Outcome::Text(acc),
        decreases n - i,
    {
        proof {
            lemma_all_parts_step(m, input_step(), i as int);
            assert(m[i as int] == vin@[i as int]@);
            assert(input_step()(m[i as int]) == input_part(m[i as int]));
            if input_part(m[i as int]) is Stuck {
                lemma_all_parts_prefix(m, input_step(), i + 1);
            }
        }
        match push_input(res, &vin[i]) {
            Ok(()) => {},
            Err(e) => {
                proof {
                    lemma_all_parts_prefix(m, input_step(), i + 1);
                }
                return Err(e);
            },
        }
        proof {
            acc = acc + text_of(input_part(m[i as int]));
            assert(res@ =~= base + acc);
        }
        i = i + 1;
    }
    proof {
        lemma_all_parts_full(m, input_step());
    }
    Ok(())
}

/// Appends the number of outputs and the outputs.
fn push_outputs(res: &mut String, vout: &Vec<Output>) -> (r: Result<(), Error>)
    ensures
        step_done(r, old(res)@, final(res)@, outputs_part(output_models(vout@))),
{
    let ghost m = output_models(vout@);
    let ghost start = res@;
    let n: usize = vout.len();
    push_compact(res, n);
    let ghost base = res@;
    let ghost mut acc: Seq<char> = Seq::empty();
    assert(m.take(0) =~= Seq::<OutputModel>::empty());
    let mut o: usize = 0;
    while o < n
        invariant
            o <= n,
            n == vout@.len(),
            m == output_models(vout@),
            m.len() == n,
            base == start + hex_lower(compact_size(n as nat)),
            res@ == base + acc,
            all_parts(m.take(o as int), output_step()) == Outcome::Text(acc),
        decreases n - o,
    {
        proof {
            lemma_all_parts_step(m, output_step(), o as int);
            assert(m[o as int] == vout@[o as int]@);
            assert(output_step()(m[o as int]) == output_part(m[o as int]));
        }
        match push_output(res, &vout[o]) {
            Ok(()) => {},
            Err(e) => {
                proof {
                    lemma_all_parts_prefix(m, output_step(), o + 1);
                }
                return Err(e);
            },
        }
        proof {
            acc = acc + text_of(output_part(m[o as int]));
            assert(res@ =~= base + acc);
        }
        o = o + 1;
    }
    proof {
        lemma_all_parts_full(m, output_step());
    }
    assert(res@ =~= start + (hex_lower(compact_size(n as nat)) + acc));
    Ok(())
}

/// Appends the witness of each input, one after the other.
fn push_witnesses(res: &mut String, vin: &Vec<Input>) -> (r: Result<(), Error>)
    ensures
        step_done(r, old(res)@, final(res)@, all_parts(input_models(vin@), witness_step())),
{
    let ghost m = input_models(vin@);
    let ghost base = res@;
    let ghost mut acc: Seq<char> = Seq::empty();
    let n: usize = vin.len();
    assert(m.take(0) =~= Seq::<InputModel>::empty());
    let mut w: usize = 0;
    while w < n
        invariant
            w <= n,
            n == vin@.len(),
            m == input_models(vin@),
            m.len() == n,
            res@ == base + acc,
            all_parts(m.take(w as int), witness_step()) == Outcome::Text(acc),
        decreases n - w,
    {
        proof {
            lemma_all_parts_step(m, witness_step(), w as int);
            assert(m[w as int] == vin@[w as int]@);
            assert(witness_step()(m[w as int]) == witness_part(m[w as int]));
        }
        match push_witness(res, &vin[w]) {
            Ok(()) => {},
            Err(e) => {
                proof {
                    lemma_all_parts_prefix(m, witness_step(), w + 1);
                }
                return Err(e);
            },
        }
        proof {
            acc = acc + text_of(witness_part(m[w as int]));
            assert(res@ =~= base + acc);
        }
        w = w + 1;
    }
    proof {
        lemma_all_parts_full(m, witness_step());
    }
    Ok(())
}

/// Whether some input carries witness data.
fn any_witness(vin: &Vec<Input>) -> (r: bool)
    ensures
        r == has_witness(input_models(vin@)),
{
    let ghost m = input_models(vin@);
    let n: usize = vin.len();
    let mut found = false;
    let mut k: usize = 0;
    while k < n
        invariant
            k <= n,
            n == vin@.len(),
            m == input_models(vin@),
            found <==> exists|q: int| 0 <= q < k && m[q].witness.len() > 0,
        decreases n - k,
    {
        assert(m[k as int] == vin@[k as int]@);
        if vin[k].witness.len() != 0 {
            found = true;
        }
        k = k + 1;
    }
    found
}

impl BTransaction {
    /// Serializes the transaction (as hexadecimal text) in the Bitcoin wire
    /// format: version; the segwit marker and flag when some input has
    /// witness data; inputs; outputs; witnesses; lock time. Fields that are
    /// already hexadecimal (scripts, witness items) are copied as they are.
    pub fn serialize(transaction: &Self) -> (r: Result<String, Error>)
        requires
            !(serialization(transaction@) is Stuck),
        ensures
            agrees(r, serialization(transaction@)),
    {
        let ghost tx = transaction@;
        let mut serialization_text = String::new();
        push_le(&mut serialization_text, transaction.version as u32 as u64, 4);
        let segwit_transaction = any_witness(&transaction.vin);
        if segwit_transaction {
            serialization_text.append("00");
            serialization_text.append("01");
        }
        push_compact(&mut serialization_text, transaction.vin.len());
        assert(serialization_text@ =~= serialization_head(tx));
        let ghost h = serialization_text@;
        let ghost ti = text_of(inputs_part(tx.vin));
        let ghost to = text_of(outputs_part(tx.vout));
        let ghost tw = text_of(witnesses_part(tx.vin));
        match push_inputs(&mut serialization_text, &transaction.vin) {
            Ok(()) => {},
            Err(e) => return Err(e),
        }
        assert(serialization_text@ == h + ti);
        match push_outputs(&mut serialization_text, &transaction.vout) {
            Ok(()) => {},
            Err(e) => return Err(e),
        }
        assert(serialization_text@ == h + ti + to);
        if segwit_transaction {
            match push_witnesses(&mut serialization_text, &transaction.vin) {
                Ok(()) => {},
                Err(e) => return Err(e),
            }
        } else {
            assert(tw =~= Seq::<char>::empty());
            assert(serialization_text@ =~= h + ti + to + tw);
        }
        assert(serialization_text@ == h + ti + to + tw);
        push_le(&mut serialization_text, transaction.locktime as u64, 4);
        assert(serialization_text@ =~= h + ti + to + (tw + hex_le(tx.locktime as nat, 4)));
        Ok(serialization_text)
    }
}

} // verus!
