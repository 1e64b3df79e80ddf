use vstd::prelude::*;
use vstd::string::StringExecFns;
use crate::error::Error;
use crate::hex_text::{hex_decode, hex_decoding, hex_encode, lemma_hex_lower_ascii, sha256d_digest, sha256d_hash};
use crate::model::{BTransaction, Input, InputModel, Output, OutputModel, input_models, output_models, stripped};
use crate::text::{byte_len, lemma_ascii_boundaries, text_bytes};
use crate::transaction::{push_le, push_output, push_txid};
use crate::wire::{Outcome, all_parts, agrees, hashed, hex_le, lemma_all_parts_full, lemma_all_parts_prefix,
    lemma_all_parts_step, outpoint_part, outpoint_step, output_part, output_step, reversed,
    segwit_signing_serialization, sequence_step, serialization, step_done, text_of, digest_sized,
    signing_digests_sized, lemma_hex_lower_len, lemma_signing_serialization_len};

verus! {

broadcast use vstd::string::to_string_from_display_ensures_for_str;

/// Decodes hexadecimal text, hashes the bytes with double SHA-256 and gives
/// the digest as lower-case hexadecimal text.
fn hash_hex_text(text: &String) -> (r: Result<String, Error>)
    ensures
        agrees(r, hashed(Outcome::Text(text@))),
        digest_sized(Outcome::Text(text@)),
        r is Ok ==> r->Ok_0@.len() == 64 && byte_len(r->Ok_0@) == 64,
{
    match hex_decode(text.as_str().as_bytes()) {
        Ok(bytes) => {
            let digest = sha256d_hash(bytes.as_slice());
            proof {
                lemma_hex_lower_len(digest@);
            }
            Ok(hex_encode(digest.as_slice()))
        },
        Err(h) => Err(Error::Hex(h)),
    }
}

/// Hashes the outcome of a serialization, as `hashed` says.
fn hash_result(r: Result<String, Error>, Ghost(o): Ghost<Outcome>) -> (h: Result<String, Error>)
    requires
        agrees(r, o),
    ensures
        agrees(h, hashed(o)),
        digest_sized(o),
        h is Ok ==> h->Ok_0@.len() == 64 && byte_len(h->Ok_0@) == 64,
{
    match r {
        Ok(text) => hash_hex_text(&text),
        Err(e) => Err(e),
    }
}

/// Appends the outpoints of all inputs.
fn push_outpoints(res: &mut String, vin: &Vec<Input>) -> (r: Result<(), Error>)
    requires
        !(all_parts(input_models(vin@), outpoint_step()) is Stuck),
    ensures
        step_done(r, old(res)@, final(res)@, all_parts(input_models(vin@), outpoint_step())),
{
    let ghost m = input_models(vin@);
    let ghost base = res@;
    let ghost mut acc: Seq<char> = Seq::empty();
    let n: usize = vin.len();
    assert(m.take(0) =~= Seq::<InputModel>::empty());
    let mut i: usize = 0;
    while i < n
        invariant
            i <= n,
            n == vin@.len(),
            m == input_models(vin@),
            m.len() == n,
            !(all_parts(m, outpoint_step()) is Stuck),
            res@ == base + acc,
            all_parts(m.take(i as int), outpoint_step()) == Outcome::Text(acc),
        decreases n - i,
    {
        proof {
            lemma_all_parts_step(m, outpoint_step(), i as int);
            assert(m[i as int] == vin@[i as int]@);
            assert(outpoint_step()(m[i as int]) == outpoint_part(m[i as int]));
            if outpoint_part(m[i as int]) is Stuck {
                lemma_all_parts_prefix(m, outpoint_step(), i + 1);
            }
        }
        let ghost before = res@;
        match push_txid(res, &vin[i].txid, "The references txid in hex format should be 64 characters long") {
            Ok(()) => {},
            Err(e) => {
                proof {
                    lemma_all_parts_prefix(m, outpoint_step(), i + 1);
                }
                return Err(e);
            },
        }
        push_le(res, vin[i].vout as u64, 4);
        proof {
            acc = acc + text_of(outpoint_part(m[i as int]));
            assert(res@ =~= base + acc);
        }
        i = i + 1;
    }
    proof {
        lemma_all_parts_full(m, outpoint_step());
    }
    Ok(())
}

/// Appends the sequence numbers of all inputs.
fn push_sequences(res: &mut String, vin: &Vec<Input>)
    ensures
        all_parts(input_models(vin@), sequence_step()) == Outcome::Text(final(res)@.subrange(old(res)@.len() as int, final(res)@.len() as int)),
        final(res)@.len() >= old(res)@.len(),
        final(res)@.subrange(0, old(res)@.len() as int) == old(res)@,
{
    let ghost m = input_models(vin@);
    let ghost base = res@;
    let ghost mut acc: Seq<char> = Seq::empty();
    let n: usize = vin.len();
    assert(m.take(0) =~= Seq::<InputModel>::empty());
    let mut i: usize = 0;
    while i < n
        invariant
            i <= n,
            n == vin@.len(),
            m == input_models(vin@),
            m.len() == n,
            res@ == base + acc,
            all_parts(m.take(i as int), sequence_step()) == Outcome::Text(acc),
        decreases n - i,
    {
        proof {
            lemma_all_parts_step(m, sequence_step(), i as int);
            assert(m[i as int] == vin@[i as int]@);
        }
        push_le(res, vin[i].sequence as u64, 4);
        proof {
            acc = acc + hex_le(m[i as int].sequence as nat, 4);
            assert(res@ =~= base + acc);
        }
        i = i + 1;
    }
    proof {
        lemma_all_parts_full(m, sequence_step());
    }
    assert(res@.subrange(base.len() as int, res@.len() as int) =~= acc);
    assert(res@.subrange(0, base.len() as int) =~= base);
}

/// Appends the outputs one after the other (without their number).
fn push_output_list(res: &mut String, vout: &Vec<Output>) -> (r: Result<(), Error>)
    ensures
        step_done(r, old(res)@, final(res)@, all_parts(output_models(vout@), output_step())),
{
    let ghost m = output_models(vout@);
    let ghost base = res@;
    let ghost mut acc: Seq<char> = Seq::empty();
    let n: usize = vout.len();
    assert(m.take(0) =~= Seq::<OutputModel>::empty());
    let mut o: usize = 0;
    while o < n
        invariant
            o <= n,
            n == vout@.len(),
            m == output_models(vout@),
            m.len() == n,
            res@ == base + acc,
            all_parts(m.take(o as int), output_step()) == Outcome::Text(acc),
        decreases n - o,
    {
        proof {
            lemma_all_parts_step(m, output_step(), o as int);
            assert(m[o as int] == vout@[o as int]@);
            assert(output_step()(m[o as int]) == output_part(m[o as int]));
        }
        match push_output(res, &vout[o]) {
            Ok(()) => {},
            Err(e) => {
                proof {
                    lemma_all_parts_prefix(m, output_step(), o + 1);
                }
                return Err(e);
            },
        }
        proof {
            acc = acc + text_of(output_part(m[o as int]));
            assert(res@ =~= base + acc);
        }
        o = o + 1;
    }
    proof {
        lemma_all_parts_full(m, output_step());
    }
    Ok(())
}

impl BTransaction {
    /// The text that is hashed to sign input `index` of a segwit
    /// transaction (BIP 143, SIGHASH_ALL, pay-to-witness-public-key-hash
    /// script code), as hexadecimal text.
    pub fn serialize_for_segwit_input_index_with_sighash(&self, index: usize, sighash_num: u32) -> (r:
        Result<String, Error>)
        requires
            index < self.vin@.len(),
            !(segwit_signing_serialization(self@, index as int, sighash_num) is Stuck),
        ensures
            agrees(r, segwit_signing_serialization(self@, index as int, sighash_num)),
            r is Ok ==> signing_digests_sized(self@),
            r is Ok ==> byte_len(r->Ok_0@) == 324 + byte_len(self@.vin[index as int].prevout.pubkeyhash),
    {
        let ghost tx = self@;
        let ghost o = segwit_signing_serialization(tx, index as int, sighash_num);
        let input = &self.vin[index];
        assert(tx.vin[index as int] == input@);
        let mut serialization = String::new();
        push_le(&mut serialization, self.version as u32 as u64, 4);
        let ghost t0 = serialization@;

        // hashPrevouts
        let mut prevouts_serialized = String::new();
        match push_outpoints(&mut prevouts_serialized, &self.vin) {
            Ok(()) => {},
            Err(e) => return Err(e),
        }
        assert(prevouts_serialized@ =~= Seq::<char>::empty() + prevouts_serialized@);
        let hash_prevouts = match hash_hex_text(&prevouts_serialized) {
            Ok(h) => h,
            Err(e) => return Err(e),
        };
        serialization.append(hash_prevouts.as_str());
        let ghost t1 = serialization@;

        // hashSequence
        let mut sequence_serialized = String::new();
        push_sequences(&mut sequence_serialized, &self.vin);
        assert(sequence_serialized@.subrange(0, sequence_serialized@.len() as int) =~= sequence_serialized@);
        let hash_sequence = match hash_hex_text(&sequence_serialized) {
            Ok(h) => h,
            Err(e) => return Err(e),
        };
        serialization.append(hash_sequence.as_str());
        let ghost t2 = serialization@;

        // outpoint
        assert(!(outpoint_part(input@) is Stuck));
        match push_txid(&mut serialization, &input.txid, "The references txid in hex format should be 64 characters long") {
            Ok(()) => {},
            Err(e) => return Err(e),
        }
        push_le(&mut serialization, input.vout as u64, 4);
        let ghost t3 = serialization@;
        assert(t3 =~= t2 + text_of(outpoint_part(input@)));

        // scriptCode, amount, nSequence
        let mut script_code = "1976a914".to_string();
        script_code.append(input.prevout.pubkeyhash.as_str());
        script_code.append("88ac");
        serialization.append(script_code.as_str());
        push_le(&mut serialization, input.prevout.value, 8);
        push_le(&mut serialization, input.sequence as u64, 4);
        let ghost t4 = serialization@;
        assert(t4 =~= t3 + ("1976a914"@ + input@.prevout.pubkeyhash + "88ac"@ + hex_le(input@.prevout.value as nat, 8) + hex_le(input@.sequence as nat, 4)));

        // hashOutputs
        let mut outputs_serialization = String::new();
        match push_output_list(&mut outputs_serialization, &self.vout) {
            Ok(()) => {},
            Err(e) => return Err(e),
        }
        assert(outputs_serialization@ =~= Seq::<char>::empty() + outputs_serialization@);
        let hash_outputs = match hash_hex_text(&outputs_serialization) {
            Ok(h) => h,
            Err(e) => return Err(e),
        };
        serialization.append(hash_outputs.as_str());
        let ghost t5 = serialization@;

        push_le(&mut serialization, self.locktime as u64, 4);
        push_le(&mut serialization, sighash_num as u64, 4);
        let ghost tail = hex_le(tx.locktime as nat, 4) + hex_le(sighash_num as nat, 4);
        assert(serialization@ =~= t5 + tail);
        let ghost d = "1976a914"@ + input@.prevout.pubkeyhash + "88ac"@ + hex_le(input@.prevout.value as nat, 8) + hex_le(input@.sequence as nat, 4);
        assert(hashed(all_parts(tx.vin, outpoint_step())) == Outcome::Text(hash_prevouts@));
        assert(hashed(all_parts(tx.vin, sequence_step())) == Outcome::Text(hash_sequence@));
        assert(hashed(all_parts(tx.vout, output_step())) == Outcome::Text(hash_outputs@));
        assert(outpoint_part(tx.vin[index as int]) == Outcome::Text(text_of(outpoint_part(input@))));
        assert(t1 == t0 + hash_prevouts@);
        assert(t2 == t1 + hash_sequence@);
        assert(t4 == t3 + d);
        assert(t5 == t4 + hash_outputs@);
        assert(serialization@ =~= t0 + (hash_prevouts@ + (hash_sequence@ + (text_of(outpoint_part(input@)) + (d + (hash_outputs@ + tail))))));
        proof {
            lemma_signing_serialization_len(tx, index as int, sighash_num);
        }
        Ok(serialization)
    }

    /// The hash to sign input `index` of a segwit transaction: the double
    /// SHA-256 of the decoded signing serialization, as hexadecimal text.
    pub fn transaction_hash_for_signing_segwit_input_index(&self, index: usize, sighash_num: u32) -> (r:
        Result<String, Error>)
        requires
            index < self.vin@.len(),
            !(segwit_signing_serialization(self@, index as int, sighash_num) is Stuck),
        ensures
            agrees(r, hashed(segwit_signing_serialization(self@, index as int, sighash_num))),
            r is Ok ==> r->Ok_0@.len() == 64 && byte_len(r->Ok_0@) == 64,
    {
        let serialized = self.serialize_for_segwit_input_index_with_sighash(index, sighash_num);
        hash_result(serialized, Ghost(segwit_signing_serialization(self@, index as int, sighash_num)))
    }

    /// The transaction id: the double SHA-256 of the serialization without
    /// witness data, as hexadecimal text (in hash byte order).
    pub fn txid(&self) -> (r: Result<String, Error>)
        requires
            !(serialization(stripped(self@, false)) is Stuck),
        ensures
            agrees(r, hashed(serialization(stripped(self@, false)))),
            r is Ok ==> r->Ok_0@.len() == 64 && byte_len(r->Ok_0@) == 64,
    {
        let transaction = self.stripped_copy(false);
        let serialized = Self::serialize(&transaction);
        hash_result(serialized, Ghost(serialization(stripped(self@, false))))
    }

    /// The witness transaction id: the double SHA-256 of the whole
    /// serialization, witness data included, as hexadecimal text.
    pub fn wtxid(&self) -> (r: Result<String, Error>)
        requires
            !(serialization(self@) is Stuck),
        ensures
            agrees(r, hashed(serialization(self@))),
            r is Ok ==> r->Ok_0@.len() == 64 && byte_len(r->Ok_0@) == 64,
    {
        let transaction = self.copy();
        let serialized = Self::serialize(&transaction);
        hash_result(serialized, Ghost(serialization(self@)))
    }

    /// The normalized transaction id: the double SHA-256 of the serialization
    /// without any unlocking data (witness, signature script and its
    /// assembly), as hexadecimal text.
    pub fn ntxid(&self) -> (r: Result<String, Error>)
        requires
            !(serialization(stripped(self@, true)) is Stuck),
        ensures
            agrees(r, hashed(serialization(stripped(self@, true)))),
            r is Ok ==> r->Ok_0@.len() == 64 && byte_len(r->Ok_0@) == 64,
    {
        let transaction = self.stripped_copy(true);
        let serialized = Self::serialize(&transaction);
        hash_result(serialized, Ghost(serialization(stripped(self@, true))))
    }

    /// The transaction id in the byte order the block chain displays: that
    /// of `txid` reversed.
    pub fn txid_blockchain(&self) -> (r: Result<String, Error>)
        requires
            !(serialization(stripped(self@, false)) is Stuck),
        ensures
            agrees(r, reversed(hashed(serialization(stripped(self@, false))))),
            r is Ok ==> byte_len(r->Ok_0@) == 64,
    {
        match self.txid() {
            Ok(txid) => {
                proof {
                    let o = serialization(stripped(self@, false));
                    let b = hex_decoding(text_bytes(text_of(o)))->Ok_0;
                    lemma_hex_lower_ascii(sha256d_digest(b));
                    lemma_ascii_boundaries(txid@);
                }
                Self::hex_reverse_byte_order(&txid)
            },
            Err(e) => Err(e),
        }
    }
}

} // verus!
