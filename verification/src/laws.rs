use vstd::prelude::*;
use vstd::utf8::*;
use crate::encoding::{byte_power, compact_size, compact_size_value, le_bytes, lemma_le_bytes_len, lemma_le_value_of_bytes};
use crate::error::Error;
use crate::hex_text::{hex_decoding, hex_lower, lemma_hex_lower_ascii, sha256d_digest};
use crate::model::{InputModel, OutputModel, TransactionModel, stripped, stripped_input};
use crate::ordering::{is_stable_order, key_position_lt};
use crate::overview::{OverviewRow, block_times, first_by_txid, history_lines, owners_of, received_of, row_describes, seen_txid,
    sent_of};
use crate::input_type::{InputType, input_type_of, spec_is_segwit};
use crate::words::words;
use crate::address::{AddressType, script_kind_text};
use crate::text::{byte_len, lemma_ascii_boundaries, lemma_reverse_pairs_boundaries,
    lemma_reverse_pairs_involution, lemma_reversed_pairs_ascii, pairs_on_char_boundaries, reverse_pair_chars,
    reverse_pairs, reversed_pairs_text, text_bytes};
use crate::utxo::{Utxo, total_value};
use crate::wire::{agrees, all_parts, has_witness, hashed, hex_le, lemma_agrees_same_result,
    lemma_all_parts_each_text, lemma_hashed_len, lemma_hex_le_len, lemma_signing_serialization_text,
    outpoint_part, outpoint_step, output_step, reversed, same_result, segwit_signing_serialization,
    sequence_step, serialization, signed_input_part, signing_digests_sized, text_of, Outcome, input_step,
    inputs_part, outputs_part, serialization_head, witnesses_part, input_part, output_part, txid_part,
    script_part, reference_txid_message, script_sig_message, scriptpubkey_message};

verus! {

/// Reversing the byte order twice gives the text back: when `hex_reverse_byte_order(h)`
/// returns `s`, then `hex_reverse_byte_order(s)` may be called and returns `h`.
pub proof fn law_hex_reverse_involution(h: Seq<char>, s: Seq<char>)
    requires
        byte_len(h) % 2 == 0,
        pairs_on_char_boundaries(text_bytes(h)),
        text_bytes(s) == reverse_pairs(text_bytes(h)),
    ensures
        byte_len(s) == byte_len(h),
        pairs_on_char_boundaries(text_bytes(s)),
        reversed_pairs_text(s) == h,
{
    let b = text_bytes(h);
    let r = text_bytes(s);
    encode_utf8_valid_utf8(h);
    encode_utf8_valid_utf8(s);
    encode_utf8_decode_utf8(h);
    lemma_reverse_pairs_involution(b);
    assert(reverse_pairs(r) == b);
    lemma_reverse_pairs_boundaries(b, r);
    assert(reversed_pairs_text(s) == decode_utf8(b));
}

/// The id in block-chain order is the transaction id with its byte order
/// reversed: when `txid` and `txid_blockchain` of the same transaction
/// return, both succeed or both fail with the same fault; the second text has
/// 64 bytes, is the first one reversed, and reversing it again (which
/// `hex_reverse_byte_order` accepts) gives the transaction id back.
pub proof fn law_txid_blockchain_reverses_txid(
    tx: TransactionModel,
    id: Result<String, Error>,
    blockchain_id: Result<String, Error>,
)
    requires
        agrees(id, hashed(serialization(stripped(tx, false)))),
        id is Ok ==> id->Ok_0@.len() == 64,
        agrees(blockchain_id, reversed(hashed(serialization(stripped(tx, false))))),
    ensures
        id is Ok <==> blockchain_id is Ok,
        id is Err ==> same_result(id, blockchain_id),
        id is Ok ==> ({
            let t = id->Ok_0@;
            let b = blockchain_id->Ok_0@;
            &&& b == reversed_pairs_text(t)
            &&& byte_len(b) == 64
            &&& pairs_on_char_boundaries(text_bytes(b))
            &&& reversed_pairs_text(b) == t
        }),
{
    if id is Ok {
        let s = serialization(stripped(tx, false));
        let d = sha256d_digest(hex_decoding(text_bytes(text_of(s)))->Ok_0);
        let t = id->Ok_0@;
        assert(t == hex_lower(d));
        lemma_hex_lower_ascii(d);
        lemma_reversed_pairs_ascii(t);
        let b = reverse_pair_chars(t);
        lemma_ascii_boundaries(b);
        lemma_reversed_pairs_ascii(b);
    }
}

/// Two transactions that differ at most in the witness data of their inputs.
pub open spec fn same_but_witness(a: TransactionModel, b: TransactionModel) -> bool {
    &&& a.version == b.version
    &&& a.locktime == b.locktime
    &&& a.vout == b.vout
    &&& a.vin.len() == b.vin.len()
    &&& forall|i: int| 0 <= i < a.vin.len() ==> stripped_input(#[trigger] a.vin[i], false) == stripped_input(b.vin[i], false)
}

/// Two transactions that differ at most in the unlocking data of their
/// inputs (witness, signature script and its assembly).
pub open spec fn same_but_unlocking(a: TransactionModel, b: TransactionModel) -> bool {
    &&& a.version == b.version
    &&& a.locktime == b.locktime
    &&& a.vout == b.vout
    &&& a.vin.len() == b.vin.len()
    &&& forall|i: int| 0 <= i < a.vin.len() ==> stripped_input(#[trigger] a.vin[i], true) == stripped_input(b.vin[i], true)
}

/// The transaction id does not depend on witness data: transactions that
/// differ only there have the same serialization without witness, hence
/// `txid` gives both the same text, or the same error with the same message.
pub proof fn law_txid_ignores_witness(
    a: TransactionModel,
    b: TransactionModel,
    ra: Result<String, Error>,
    rb: Result<String, Error>,
)
    requires
        same_but_witness(a, b),
        agrees(ra, hashed(serialization(stripped(a, false)))),
        agrees(rb, hashed(serialization(stripped(b, false)))),
    ensures
        serialization(stripped(a, false)) == serialization(stripped(b, false)),
        same_result(ra, rb),
{
    let sa = stripped(a, false);
    let sb = stripped(b, false);
    assert(sa.vin =~= sb.vin);
    assert(serialization(sa) == serialization(sb)) by {
        assert(sa.vin == sb.vin);
    }
    lemma_agrees_same_result(ra, rb, hashed(serialization(sa)));
}

/// The normalized id does not depend on unlocking data: transactions that
/// differ only in witnesses and signature scripts get the same `ntxid`.
pub proof fn law_ntxid_ignores_unlocking_data(
    a: TransactionModel,
    b: TransactionModel,
    ra: Result<String, Error>,
    rb: Result<String, Error>,
)
    requires
        same_but_unlocking(a, b),
        agrees(ra, hashed(serialization(stripped(a, true)))),
        agrees(rb, hashed(serialization(stripped(b, true)))),
    ensures
        serialization(stripped(a, true)) == serialization(stripped(b, true)),
        same_result(ra, rb),
{
    let sa = stripped(a, true);
    let sb = stripped(b, true);
    assert(sa.vin =~= sb.vin);
    assert(serialization(sa) == serialization(sb)) by {
        assert(sa.vin == sb.vin);
    }
    lemma_agrees_same_result(ra, rb, hashed(serialization(sa)));
}

/// The transaction with the signature script and its assembly of every
/// input cleared.
pub open spec fn without_signatures(tx: TransactionModel) -> TransactionModel {
    TransactionModel {
        vin: tx.vin.map_values(|i: InputModel| InputModel { scriptsig: Seq::empty(), scriptsig_asm: Seq::empty(), ..i }),
        ..tx
    }
}

/// The normalized id is the transaction id of the transaction whose
/// signature scripts are cleared: `ntxid` of `tx` and `txid` of
/// `without_signatures(tx)` give the same text or the same error.
pub proof fn law_ntxid_is_txid_without_signatures(
    tx: TransactionModel,
    normalized: Result<String, Error>,
    id: Result<String, Error>,
)
    requires
        agrees(normalized, hashed(serialization(stripped(tx, true)))),
        agrees(id, hashed(serialization(stripped(without_signatures(tx), false)))),
    ensures
        stripped(tx, true) == stripped(without_signatures(tx), false),
        same_result(normalized, id),
{
    let s1 = stripped(tx, true);
    let s3 = stripped(without_signatures(tx), false);
    assert(s1.vin =~= s3.vin);
    assert(s1 == s3);
    lemma_agrees_same_result(normalized, id, hashed(serialization(s1)));
}

/// Without witness data the transaction id and the witness transaction id
/// are computed from the same serialization, so `txid` and `wtxid` agree.
pub proof fn law_txid_is_wtxid_without_witness(
    tx: TransactionModel,
    id: Result<String, Error>,
    witness_id: Result<String, Error>,
)
    requires
        !has_witness(tx.vin),
        agrees(id, hashed(serialization(stripped(tx, false)))),
        agrees(witness_id, hashed(serialization(tx))),
    ensures
        serialization(stripped(tx, false)) == serialization(tx),
        same_result(id, witness_id),
{
    let s = stripped(tx, false);
    assert forall|i: int| 0 <= i < tx.vin.len() implies #[trigger] s.vin[i] == tx.vin[i] by {
        assert(tx.vin[i].witness.len() == 0);
        assert(tx.vin[i].witness =~= Seq::<Seq<char>>::empty());
    }
    assert(s.vin =~= tx.vin);
    assert(s == tx);
    lemma_agrees_same_result(id, witness_id, hashed(serialization(tx)));
}

/// The signing serializations of any two inputs of one transaction succeed
/// or fail together (with the same fault), and share their first 136
/// characters (version and the digests of all outpoints and all sequence
/// numbers) and their last 80 (digest of all outputs, lock time, sighash
/// number).
#[verifier::spinoff_prover]
pub proof fn law_signing_serialization_shared_parts(tx: TransactionModel, i: int, j: int, sighash: u32)
    requires
        0 <= i < tx.vin.len(),
        0 <= j < tx.vin.len(),
    ensures
        segwit_signing_serialization(tx, i, sighash) is Text <==> segwit_signing_serialization(tx, j, sighash) is Text,
        !(segwit_signing_serialization(tx, i, sighash) is Text) ==> segwit_signing_serialization(tx, i, sighash)
            == segwit_signing_serialization(tx, j, sighash),
        segwit_signing_serialization(tx, i, sighash) is Text && signing_digests_sized(tx) ==> ({
            let a = text_of(segwit_signing_serialization(tx, i, sighash));
            let b = text_of(segwit_signing_serialization(tx, j, sighash));
            &&& a.len() >= 136 + 80
            &&& b.len() >= 136 + 80
            &&& a.take(136) == b.take(136)
            &&& a.skip(a.len() - 80) == b.skip(b.len() - 80)
        }),
{
    let p = all_parts(tx.vin, outpoint_step());
    if p is Text {
        lemma_all_parts_each_text(tx.vin, outpoint_step(), i);
        lemma_all_parts_each_text(tx.vin, outpoint_step(), j);
        assert(outpoint_part(tx.vin[i]) is Text);
        assert(outpoint_part(tx.vin[j]) is Text);
    }
    if segwit_signing_serialization(tx, i, sighash) is Text && signing_digests_sized(tx) {
        lemma_signing_serialization_text(tx, i, sighash);
        lemma_signing_serialization_text(tx, j, sighash);
        let v = hex_le((tx.version as u32) as nat, 4);
        let hp = text_of(hashed(all_parts(tx.vin, outpoint_step())));
        let hq = text_of(hashed(all_parts(tx.vin, sequence_step())));
        let ho = text_of(hashed(all_parts(tx.vout, output_step())));
        let t = hex_le(tx.locktime as nat, 4) + hex_le(sighash as nat, 4);
        lemma_hashed_len(all_parts(tx.vin, outpoint_step()));
        lemma_hashed_len(all_parts(tx.vin, sequence_step()));
        lemma_hashed_len(all_parts(tx.vout, output_step()));
        lemma_hex_le_len((tx.version as u32) as nat, 4);
        lemma_hex_le_len(tx.locktime as nat, 4);
        lemma_hex_le_len(sighash as nat, 4);
        let a = text_of(segwit_signing_serialization(tx, i, sighash));
        let b = text_of(segwit_signing_serialization(tx, j, sighash));
        let mi = text_of(outpoint_part(tx.vin[i])) + signed_input_part(tx.vin[i]);
        let mj = text_of(outpoint_part(tx.vin[j])) + signed_input_part(tx.vin[j]);
        assert(a =~= (v + hp + hq) + mi + (ho + t));
        assert(b =~= (v + hp + hq) + mj + (ho + t));
        assert(a.take(136) =~= v + hp + hq);
        assert(b.take(136) =~= v + hp + hq);
        assert(a.skip(a.len() - 80) =~= ho + t);
        assert(b.skip(b.len() - 80) =~= ho + t);
    }
}

/// The variable-length integer takes one byte below 0xFD, three up to
/// 0xFFFF, five up to 0xFFFFFFFF and nine beyond, and its first byte is the
/// number itself or the marker 0xFD, 0xFE, 0xFF.
pub proof fn law_compact_size_shape(n: nat)
    ensures
        n < 0xFD ==> compact_size(n).len() == 1 && compact_size(n)[0] == n,
        0xFD <= n <= 0xFFFF ==> compact_size(n).len() == 3 && compact_size(n)[0] == 0xFD,
        0xFFFF < n <= 0xFFFF_FFFF ==> compact_size(n).len() == 5 && compact_size(n)[0] == 0xFE,
        0xFFFF_FFFF < n ==> compact_size(n).len() == 9 && compact_size(n)[0] == 0xFF,
{
    lemma_le_bytes_len(n, 2);
    lemma_le_bytes_len(n, 4);
    lemma_le_bytes_len(n, 8);
}

/// Decoding a variable-length integer gives the number back, for every
/// number that fits in 64 bits.
pub proof fn law_compact_size_round_trip(n: nat)
    requires
        n <= 0xFFFF_FFFF_FFFF_FFFF,
    ensures
        compact_size_value(compact_size(n)) == n,
{
    assert(byte_power(2) == 0x1_0000) by {
        reveal_with_fuel(byte_power, 3);
    }
    assert(byte_power(4) == 0x1_0000_0000) by {
        reveal_with_fuel(byte_power, 5);
    }
    assert(byte_power(8) == 0x1_0000_0000_0000_0000) by {
        reveal_with_fuel(byte_power, 9);
    }
    if n < 0xFD {
    } else if n <= 0xFFFF {
        lemma_le_value_of_bytes(n, 2);
        assert(compact_size(n).drop_first() =~= le_bytes(n, 2));
    } else if n <= 0xFFFF_FFFF {
        lemma_le_value_of_bytes(n, 4);
        assert(compact_size(n).drop_first() =~= le_bytes(n, 4));
    } else {
        lemma_le_value_of_bytes(n, 8);
        assert(compact_size(n).drop_first() =~= le_bytes(n, 8));
    }
}

/// Pushing an output adds its value to the sum.
pub proof fn law_sum_after_push(s: Seq<Utxo>, u: Utxo)
    ensures
        total_value(s.push(u)) == total_value(s) + u.value,
{
    assert(s.push(u).drop_last() =~= s);
}

/// The kept transactions of a history have pairwise different ids.
pub proof fn law_history_ids_unique(s: Seq<(TransactionModel, Seq<char>)>)
    ensures
        forall|i: int, j: int|
            0 <= i < j < first_by_txid(s).len() ==> (#[trigger] first_by_txid(s)[i]).0.txid != (#[trigger] first_by_txid(s)[j]).0.txid,
    decreases s.len(),
{
    if s.len() > 0 {
        law_history_ids_unique(s.drop_last());
        let d = first_by_txid(s.drop_last());
        if !seen_txid(d, s.last().0.txid) {
            assert forall|i: int, j: int|
                0 <= i < j < first_by_txid(s).len() implies (#[trigger] first_by_txid(s)[i]).0.txid != (#[trigger] first_by_txid(s)[j]).0.txid by {
                if j == d.len() {
                    assert(first_by_txid(s)[i] == d[i]);
                } else {
                    assert(first_by_txid(s)[i] == d[i] && first_by_txid(s)[j] == d[j]);
                }
            }
        }
    }
}

/// In a stable order by block time, block times never decrease along the
/// lines, no transaction is listed twice, and among equal block times the
/// earlier-kept transaction comes first.
pub proof fn law_history_order(u: Seq<(TransactionModel, Seq<char>)>, p: Seq<usize>)
    requires
        is_stable_order(block_times(u), p),
    ensures
        p.len() == u.len(),
        forall|i: int, j: int|
            0 <= i < j < p.len() ==> u[#[trigger] p[i] as int].0.status.block_time <= u[#[trigger] p[j] as int].0.status.block_time,
        forall|i: int, j: int| 0 <= i < j < p.len() ==> #[trigger] p[i] != #[trigger] p[j],
        forall|i: int, j: int|
            0 <= i < j < p.len() && u[p[i] as int].0.status.block_time == u[p[j] as int].0.status.block_time
                ==> #[trigger] p[i] < #[trigger] p[j],
{
    assert forall|i: int, j: int| 0 <= i < j < p.len() implies u[#[trigger] p[i] as int].0.status.block_time
        <= u[#[trigger] p[j] as int].0.status.block_time && p[i] != p[j] && (u[p[i] as int].0.status.block_time
        == u[p[j] as int].0.status.block_time ==> p[i] < p[j]) by {
        assert(key_position_lt(
            block_times(u)[p[i] as int],
            p[i] as int,
            block_times(u)[p[j] as int],
            p[j] as int,
        ));
        assert(block_times(u)[p[i] as int] == u[p[i] as int].0.status.block_time);
        assert(block_times(u)[p[j] as int] == u[p[j] as int].0.status.block_time);
    }
}

/// Every fetched transaction id appears in the history: keeping only the
/// first occurrence of each id loses no id.
pub proof fn law_history_covers_every_id(s: Seq<(TransactionModel, Seq<char>)>, k: int)
    requires
        0 <= k < s.len(),
    ensures
        seen_txid(first_by_txid(s), s[k].0.txid),
    decreases s.len(),
{
    let d = first_by_txid(s.drop_last());
    if k < s.len() - 1 {
        law_history_covers_every_id(s.drop_last(), k);
        let w = choose|q: int| 0 <= q < d.len() && d[q].0.txid == s[k].0.txid;
        if !seen_txid(d, s.last().0.txid) {
            assert(first_by_txid(s)[w] == d[w]);
        }
        assert(first_by_txid(s).len() >= d.len());
        assert(0 <= w < first_by_txid(s).len() && first_by_txid(s)[w].0.txid == s[k].0.txid);
    } else {
        if !seen_txid(d, s.last().0.txid) {
            assert(first_by_txid(s)[d.len() as int] == s.last());
        }
    }
}

/// Each line of the history shows the change of the wallet's balance: it is
/// incoming exactly when more was received than sent, and the net amount is
/// received minus sent (incoming) or sent minus received (outgoing), so change
/// paid back to the wallet is subtracted from what it spent.
pub proof fn law_history_net_is_balance_change(rows: Seq<OverviewRow>, u: Seq<(TransactionModel, Seq<char>)>)
    requires
        history_lines(rows, u),
    ensures
        forall|i: int|
            0 <= i < rows.len() ==> {
                let r = #[trigger] rows[i];
                &&& r.incoming <==> r.received_satoshi > r.sent_satoshi
                &&& r.incoming ==> r.net_satoshi + r.sent_satoshi == r.received_satoshi
                &&& !r.incoming ==> r.net_satoshi + r.received_satoshi == r.sent_satoshi
            },
{
}

/// The lines of the history are the kept transactions, each once, in order
/// of block time: line `i` shows the id, status and amounts of a kept
/// transaction, later lines never have an earlier block time, no kept
/// transaction is shown twice, and line `i` lists the address of the `i`-th
/// kept transaction.
#[verifier::spinoff_prover]
pub proof fn law_history_rows_show_kept_transactions(rows: Seq<OverviewRow>, u: Seq<(TransactionModel, Seq<char>)>)
    requires
        history_lines(rows, u),
    ensures
        rows.len() == u.len(),
        exists|p: Seq<usize>|
            {
                &&& p.len() == rows.len()
                &&& forall|i: int| 0 <= i < p.len() ==> #[trigger] p[i] < u.len()
                &&& forall|i: int, k: int| 0 <= i < k < p.len() ==> #[trigger] p[i] != #[trigger] p[k]
                &&& forall|i: int, k: int|
                    0 <= i < k < p.len() ==> u[#[trigger] p[i] as int].0.status.block_time <= u[#[trigger] p[k] as int].0.status.block_time
                &&& forall|i: int|
                    0 <= i < p.len() ==> {
                        let r = #[trigger] rows[i];
                        let t = u[p[i] as int].0;
                        &&& r.txid@ == t.txid
                        &&& r.received_satoshi == received_of(t.vout, owners_of(u))
                        &&& r.sent_satoshi == sent_of(t.vin, owners_of(u))
                        &&& r.owner_address@ == u[i].1
                        &&& (r.status@ == "Confirmed"@ <==> t.status.confirmed)
                        &&& (r.timestamp@.len() == 0 <== !t.status.confirmed)
                    }
            },
{
    reveal_strlit("Confirmed");
    reveal_strlit("Pending Confirmation");
    assert("Confirmed"@ != "Pending Confirmation"@) by {
        assert("Confirmed"@.len() != "Pending Confirmation"@.len());
    }
    let p = choose|p: Seq<usize>|
        #![trigger is_stable_order(block_times(u), p)]
        is_stable_order(block_times(u), p) && forall|i: int|
            0 <= i < rows.len() ==> row_describes(
                #[trigger] rows[i],
                u[p[i] as int].0,
                u[i].1,
                owners_of(u),
            );
    law_history_order(u, p);
    assert forall|i: int| 0 <= i < p.len() implies #[trigger] p[i] < u.len() by {
        assert(block_times(u).len() == u.len());
    }
}

/// The script kinds an input type is read from: `p2pkh` and only it gives a
/// pay-to-public-key-hash input, `v0_p2wsh` and `v0_p2wpkh` give the witness
/// kinds, `p2sh` gives one of the script-hash kinds, and every other kind is
/// refused.
pub proof fn law_input_type_kinds(kind: Seq<char>, assembly: Seq<char>)
    ensures
        input_type_of(kind, assembly) == Some(InputType::P2pkh) <==> kind == "p2pkh"@,
        input_type_of(kind, assembly) == Some(InputType::P2wsh) <==> kind == "v0_p2wsh"@,
        input_type_of(kind, assembly) == Some(InputType::P2wpkh) <==> kind == "v0_p2wpkh"@,
        (input_type_of(kind, assembly) == Some(InputType::P2sh) || input_type_of(kind, assembly) == Some(
            InputType::P2sh2Wpkh,
        ) || input_type_of(kind, assembly) == Some(InputType::P2sh2Wsh)) <==> kind == "p2sh"@,
        input_type_of(kind, assembly) is None <==> (kind != "p2pkh"@ && kind != "p2sh"@ && kind
            != "v0_p2wsh"@ && kind != "v0_p2wpkh"@),
        kind == "p2sh"@ ==> (input_type_of(kind, assembly) == Some(InputType::P2sh2Wpkh) <==> (words(assembly).len()
            > 1 && words(assembly)[1] == "OP_PUSHBYTES_22"@)),
        kind == "p2sh"@ ==> (input_type_of(kind, assembly) == Some(InputType::P2sh2Wsh) <==> (words(assembly).len()
            > 1 && words(assembly)[1] == "OP_PUSHBYTES_34"@)),
        input_type_of(kind, assembly) matches Some(t) ==> (spec_is_segwit(t) <==> (kind == "v0_p2wsh"@ || kind
            == "v0_p2wpkh"@ || (kind == "p2sh"@ && words(assembly).len() > 1 && (words(assembly)[1]
            == "OP_PUSHBYTES_22"@ || words(assembly)[1] == "OP_PUSHBYTES_34"@)))),
{
    reveal_strlit("OP_PUSHBYTES_22");
    reveal_strlit("OP_PUSHBYTES_34");
    assert("OP_PUSHBYTES_22"@ != "OP_PUSHBYTES_34"@) by {
        assert("OP_PUSHBYTES_22"@[14] != "OP_PUSHBYTES_34"@[14]);
    }
    reveal_strlit("p2pkh");
    reveal_strlit("p2sh");
    reveal_strlit("v0_p2wsh");
    reveal_strlit("v0_p2wpkh");
    assert("p2pkh"@.len() == 5 && "p2sh"@.len() == 4 && "v0_p2wsh"@.len() == 8 && "v0_p2wpkh"@.len() == 9);
}

/// The script kind recorded for an address names that kind of address: an
/// output given it is read back (by `InputType::new`) as the matching kind of
/// input, so different address kinds are recorded differently.
pub proof fn law_script_kind_names_address_kind(t: AddressType, assembly: Seq<char>)
    ensures
        t == AddressType::P2pkh ==> input_type_of(script_kind_text(t)->0, assembly) == Some(InputType::P2pkh),
        t == AddressType::P2wpkh ==> input_type_of(script_kind_text(t)->0, assembly) == Some(InputType::P2wpkh),
        t == AddressType::P2wsh ==> input_type_of(script_kind_text(t)->0, assembly) == Some(InputType::P2wsh),
        t == AddressType::P2sh ==> {
            let r = input_type_of(script_kind_text(t)->0, assembly);
            r == Some(InputType::P2sh) || r == Some(InputType::P2sh2Wpkh) || r == Some(InputType::P2sh2Wsh)
        },
        script_kind_text(t) is Some <==> (t == AddressType::P2pkh || t == AddressType::P2sh || t
            == AddressType::P2wpkh || t == AddressType::P2wsh),
        forall|t2: AddressType|
            #![trigger script_kind_text(t2)]
            script_kind_text(t) is Some && script_kind_text(t) == script_kind_text(t2) ==> t == t2,
{
    reveal_strlit("p2pkh");
    reveal_strlit("p2sh");
    reveal_strlit("v0_p2wsh");
    reveal_strlit("v0_p2wpkh");
    law_input_type_kinds(script_kind_text(t)->0, assembly);
}

/// The fields of a signing serialization, counted from its end: the amount
/// the signed input spends (16 characters), that input's own sequence number
/// (8), the digest of all outputs (64), the lock time (8) and the sighash
/// number (8); before the amount, the script code ends with the public key
/// hash of the signed input and `88ac`; the text starts with the version.
#[verifier::spinoff_prover]
pub proof fn law_signing_serialization_fields(tx: TransactionModel, index: int, sighash: u32)
    requires
        0 <= index < tx.vin.len(),
        segwit_signing_serialization(tx, index, sighash) is Text,
        signing_digests_sized(tx),
    ensures
        ({
            let s = text_of(segwit_signing_serialization(tx, index, sighash));
            let n = s.len() as int;
            let input = tx.vin[index];
            let p = input.prevout.pubkeyhash.len() as int;
            let q = text_of(outpoint_part(input)).len() as int;
            &&& n >= 8 + 64 + 64 + 110 + p
            &&& s.subrange(0, 8) == hex_le((tx.version as u32) as nat, 4)
            &&& s.subrange(8, 72) == text_of(hashed(all_parts(tx.vin, outpoint_step())))
            &&& s.subrange(72, 136) == text_of(hashed(all_parts(tx.vin, sequence_step())))
            &&& s.subrange(136, 136 + q) == text_of(outpoint_part(input))
            &&& s.subrange(136 + q, 144 + q) == "1976a914"@
            &&& s.subrange(n - 110 - p, n - 108 - p) == "14"@
            &&& s.subrange(n - 108 - p, n - 108) == input.prevout.pubkeyhash
            &&& s.subrange(n - 108, n - 104) == "88ac"@
            &&& s.subrange(n - 104, n - 88) == hex_le(input.prevout.value as nat, 8)
            &&& s.subrange(n - 88, n - 80) == hex_le(input.sequence as nat, 4)
            &&& s.subrange(n - 80, n - 16) == text_of(hashed(all_parts(tx.vout, output_step())))
            &&& s.subrange(n - 16, n - 8) == hex_le(tx.locktime as nat, 4)
            &&& s.subrange(n - 8, n) == hex_le(sighash as nat, 4)
        }),
{
    let input = tx.vin[index];
    lemma_signing_serialization_text(tx, index, sighash);
    let v = hex_le((tx.version as u32) as nat, 4);
    let hp = text_of(hashed(all_parts(tx.vin, outpoint_step())));
    let hq = text_of(hashed(all_parts(tx.vin, sequence_step())));
    let op = text_of(outpoint_part(input));
    let ho = text_of(hashed(all_parts(tx.vout, output_step())));
    let hv = hex_le(input.prevout.value as nat, 8);
    let hs = hex_le(input.sequence as nat, 4);
    let hl = hex_le(tx.locktime as nat, 4);
    let hh = hex_le(sighash as nat, 4);
    lemma_hashed_len(all_parts(tx.vin, outpoint_step()));
    lemma_hashed_len(all_parts(tx.vin, sequence_step()));
    lemma_hashed_len(all_parts(tx.vout, output_step()));
    lemma_hex_le_len((tx.version as u32) as nat, 4);
    lemma_hex_le_len(input.prevout.value as nat, 8);
    lemma_hex_le_len(input.sequence as nat, 4);
    lemma_hex_le_len(tx.locktime as nat, 4);
    lemma_hex_le_len(sighash as nat, 4);
    reveal_strlit("1976a914");
    reveal_strlit("88ac");
    reveal_strlit("14");
    let pkh = input.prevout.pubkeyhash;
    let s = text_of(segwit_signing_serialization(tx, index, sighash));
    let head = v + hp + hq + op + "1976a9"@;
    assert("1976a914"@ =~= "1976a9"@ + "14"@) by {
        reveal_strlit("1976a9");
    }
    let rest = hp + hq + op + "1976a9"@;
    assert(s =~= v + (rest + ("14"@ + (pkh + ("88ac"@ + (hv + (hs + (ho + (hl + hh)))))))));
    lemma_signing_fields_of_text(s, v, rest, pkh, hv, hs, ho, hl, hh);
    let t = "1976a914"@ + (pkh + ("88ac"@ + (hv + (hs + (ho + (hl + hh))))));
    assert(s =~= v + (hp + (hq + (op + t))));
    lemma_signing_head_fields(s, v, hp, hq, op, t);
    assert(t.subrange(0, 8) =~= "1976a914"@);
}

/// Reading the fields at the start of a signing serialization.
proof fn lemma_signing_head_fields(
    s: Seq<char>,
    v: Seq<char>,
    hp: Seq<char>,
    hq: Seq<char>,
    op: Seq<char>,
    t: Seq<char>,
)
    requires
        s == v + (hp + (hq + (op + t))),
        v.len() == 8,
        hp.len() == 64,
        hq.len() == 64,
    ensures
        s.subrange(8, 72) == hp,
        s.subrange(72, 136) == hq,
        s.subrange(136, 136 + op.len() as int) == op,
        s.subrange(136 + op.len() as int, s.len() as int) == t,
{
    assert(s.subrange(8, 72) =~= hp);
    assert(s.subrange(72, 136) =~= hq);
    assert(s.subrange(136, 136 + op.len() as int) =~= op);
    assert(s.subrange(136 + op.len() as int, s.len() as int) =~= t);
}

/// Witness data is inserted into a serialization, never put in place of
/// anything: a transaction with witnesses serializes as the same transaction
/// without them, with the marker and flag `0001` after the version and the
/// witnesses before the lock time. In particular each input keeps its own
/// signature script, and the two serializations fail together, with the same
/// fault, when the inputs or outputs are refused.
#[verifier::spinoff_prover]
pub proof fn law_serialization_inserts_witness(tx: TransactionModel)
    requires
        has_witness(tx.vin),
        witnesses_part(tx.vin) is Text,
    ensures
        serialization(stripped(tx, false)) is Text <==> serialization(tx) is Text,
        !(serialization(stripped(tx, false)) is Text) ==> serialization(tx) == serialization(stripped(tx, false)),
        serialization(stripped(tx, false)) is Text ==> ({
            let s = text_of(serialization(stripped(tx, false)));
            let n = s.len() as int;
            &&& n >= 16
            &&& text_of(serialization(tx)) == s.subrange(0, 8) + "00"@ + "01"@ + s.subrange(8, n - 8) + text_of(
                witnesses_part(tx.vin),
            ) + s.subrange(n - 8, n)
        }),
{
    let st = stripped(tx, false);
    assert(!has_witness(st.vin)) by {
        assert forall|k: int| 0 <= k < st.vin.len() implies !(st.vin[k].witness.len() > 0) by {
            assert(st.vin[k] == stripped_input(tx.vin[k], false));
        }
    }
    assert forall|k: int| 0 <= k < st.vin.len() implies input_step()(#[trigger] st.vin[k]) == input_step()(tx.vin[k]) by {
        assert(st.vin[k] == stripped_input(tx.vin[k], false));
    }
    lemma_all_parts_congruent(st.vin, tx.vin, input_step());
    assert(inputs_part(st.vin) == inputs_part(tx.vin));
    assert(witnesses_part(st.vin) == Outcome::Text(Seq::empty()));
    let v = hex_le((tx.version as u32) as nat, 4);
    let c = hex_lower(compact_size(tx.vin.len()));
    let l = hex_le(tx.locktime as nat, 4);
    lemma_hex_le_len((tx.version as u32) as nat, 4);
    lemma_hex_le_len(tx.locktime as nat, 4);
    assert(serialization_head(st) =~= v + c);
    assert(serialization_head(tx) =~= v + ("00"@ + "01"@) + c);
    let ip = inputs_part(tx.vin);
    let opart = outputs_part(tx.vout);
    if serialization(st) is Text {
        let i = text_of(ip);
        let o = text_of(opart);
        let w = text_of(witnesses_part(tx.vin));
        let s = text_of(serialization(st));
        let n = s.len() as int;
        assert(s =~= v + (c + i + o) + l);
        assert(text_of(serialization(tx)) =~= v + "00"@ + "01"@ + (c + i + o) + w + l);
        assert(s.subrange(0, 8) =~= v);
        assert(s.subrange(8, n - 8) =~= c + i + o);
        assert(s.subrange(n - 8, n) =~= l);
    }
}

/// `all_parts` gives the same outcome on two sequences whose items give the
/// same steps.
proof fn lemma_all_parts_congruent<A>(s1: Seq<A>, s2: Seq<A>, f: spec_fn(A) -> Outcome)
    requires
        s1.len() == s2.len(),
        forall|k: int| 0 <= k < s1.len() ==> f(#[trigger] s1[k]) == f(s2[k]),
    ensures
        all_parts(s1, f) == all_parts(s2, f),
    decreases s1.len(),
{
    if s1.len() > 0 {
        assert forall|k: int| 0 <= k < s1.drop_last().len() implies f(#[trigger] s1.drop_last()[k]) == f(
            s2.drop_last()[k],
        ) by {
            assert(s1.drop_last()[k] == s1[k]);
            assert(s2.drop_last()[k] == s2[k]);
        }
        lemma_all_parts_congruent(s1.drop_last(), s2.drop_last(), f);
        assert(f(s1.last()) == f(s2[s2.len() - 1]));
    }
}

/// The amount received by a wallet is the sum, over the outputs, of the
/// values of those paying one of its addresses: one output counts its value
/// exactly when it pays the wallet, and the amount of two runs of outputs is
/// the sum of theirs (so every output is counted once, change included).
pub proof fn law_received_is_sum_over_outputs(a: Seq<OutputModel>, b: Seq<OutputModel>, o: OutputModel, owners: Seq<Seq<char>>)
    ensures
        received_of(seq![o], owners) == if owners.contains(o.scriptpubkey_address) { o.value as nat } else { 0 },
        received_of(a + b, owners) == received_of(a, owners) + received_of(b, owners),
    decreases b.len(),
{
    assert(seq![o].drop_last() =~= Seq::<OutputModel>::empty());
    assert(received_of(Seq::<OutputModel>::empty(), owners) == 0);
    assert(seq![o].last() == o);
    if b.len() == 0 {
        assert(a + b =~= a);
    } else {
        law_received_is_sum_over_outputs(a, b.drop_last(), o, owners);
        assert((a + b).drop_last() =~= a + b.drop_last());
        assert((a + b).last() == b.last());
    }
}

/// The amount sent by a wallet is the sum, over the inputs, of the values of
/// the outputs they spend that belong to one of its addresses.
pub proof fn law_sent_is_sum_over_inputs(a: Seq<InputModel>, b: Seq<InputModel>, i: InputModel, owners: Seq<Seq<char>>)
    ensures
        sent_of(seq![i], owners) == if owners.contains(i.prevout.scriptpubkey_address) { i.prevout.value as nat } else { 0 },
        sent_of(a + b, owners) == sent_of(a, owners) + sent_of(b, owners),
    decreases b.len(),
{
    assert(seq![i].drop_last() =~= Seq::<InputModel>::empty());
    assert(sent_of(Seq::<InputModel>::empty(), owners) == 0);
    assert(seq![i].last() == i);
    if b.len() == 0 {
        assert(a + b =~= a);
    } else {
        law_sent_is_sum_over_inputs(a, b.drop_last(), i, owners);
        assert((a + b).drop_last() =~= a + b.drop_last());
        assert((a + b).last() == b.last());
    }
}

/// The text of an input in a serialization: the 64-byte id it spends with
/// its byte order reversed, the output index, the length in bytes of its
/// signature script, the signature script itself, and its sequence number.
pub proof fn law_input_layout(i: InputModel)
    requires
        input_part(i) is Text,
    ensures
        ({
            let s = text_of(input_part(i));
            let n = s.len() as int;
            let k = i.scriptsig.len() as int;
            let c = hex_lower(compact_size(byte_len(i.scriptsig) / 2));
            let m = c.len() as int;
            &&& byte_len(i.txid) == 64
            &&& byte_len(i.scriptsig) % 2 == 0
            &&& n >= 16 + k + m
            &&& s.subrange(0, n - 16 - k - m) == reversed_pairs_text(i.txid)
            &&& s.subrange(n - 16 - k - m, n - 8 - k - m) == hex_le(i.vout as nat, 4)
            &&& s.subrange(n - 8 - k - m, n - 8 - k) == c
            &&& s.subrange(n - 8 - k, n - 8) == i.scriptsig
            &&& s.subrange(n - 8, n) == hex_le(i.sequence as nat, 4)
        }),
{
    let r = reversed_pairs_text(i.txid);
    let hv = hex_le(i.vout as nat, 4);
    let c = hex_lower(compact_size(byte_len(i.scriptsig) / 2));
    let hs = hex_le(i.sequence as nat, 4);
    lemma_hex_le_len(i.vout as nat, 4);
    lemma_hex_le_len(i.sequence as nat, 4);
    assert(txid_part(i.txid, reference_txid_message()) is Text);
    assert(script_part(i.scriptsig, script_sig_message()) is Text);
    let s = text_of(input_part(i));
    assert(s =~= r + (hv + (c + (i.scriptsig + hs))));
    lemma_five_fields(s, r, hv, c, i.scriptsig, hs);
}

/// The text of an output in a serialization: its value in 8 little-endian
/// bytes, the length in bytes of its script, and the script itself.
pub proof fn law_output_layout(o: OutputModel)
    requires
        output_part(o) is Text,
    ensures
        ({
            let s = text_of(output_part(o));
            let c = hex_lower(compact_size(byte_len(o.scriptpubkey) / 2));
            &&& byte_len(o.scriptpubkey) % 2 == 0
            &&& s.len() == 16 + c.len() + o.scriptpubkey.len()
            &&& s.subrange(0, 16) == hex_le(o.value as nat, 8)
            &&& s.subrange(16, 16 + c.len() as int) == c
            &&& s.subrange(16 + c.len() as int, s.len() as int) == o.scriptpubkey
        }),
{
    let hv = hex_le(o.value as nat, 8);
    let c = hex_lower(compact_size(byte_len(o.scriptpubkey) / 2));
    lemma_hex_le_len(o.value as nat, 8);
    assert(script_part(o.scriptpubkey, scriptpubkey_message()) is Text);
    let s = text_of(output_part(o));
    assert(s =~= hv + (c + o.scriptpubkey));
    assert(s.subrange(0, 16) =~= hv);
    assert(s.subrange(16, 16 + c.len() as int) =~= c);
    assert(s.subrange(16 + c.len() as int, s.len() as int) =~= o.scriptpubkey);
}

/// A serialization starts with the version and ends with the lock time;
/// after the version come the marker and flag `0001` exactly when some input
/// has witness data, then the number of inputs.
#[verifier::spinoff_prover]
pub proof fn law_serialization_frame(tx: TransactionModel)
    requires
        serialization(tx) is Text,
    ensures
        ({
            let s = text_of(serialization(tx));
            let n = s.len() as int;
            let w: int = if has_witness(tx.vin) { 4 } else { 0 };
            let c = hex_lower(compact_size(tx.vin.len()));
            &&& n >= 16 + w + c.len()
            &&& s.subrange(0, 8) == hex_le((tx.version as u32) as nat, 4)
            &&& has_witness(tx.vin) ==> s.subrange(8, 12) == "0001"@
            &&& s.subrange(8 + w, 8 + w + c.len() as int) == c
            &&& s.subrange(n - 8, n) == hex_le(tx.locktime as nat, 4)
        }),
{
    let v = hex_le((tx.version as u32) as nat, 4);
    let l = hex_le(tx.locktime as nat, 4);
    lemma_hex_le_len((tx.version as u32) as nat, 4);
    lemma_hex_le_len(tx.locktime as nat, 4);
    let c = hex_lower(compact_size(tx.vin.len()));
    let mk: Seq<char> = if has_witness(tx.vin) { "00"@ + "01"@ } else { Seq::empty() };
    reveal_strlit("00");
    reveal_strlit("01");
    reveal_strlit("0001");
    let s = text_of(serialization(tx));
    let mid = text_of(inputs_part(tx.vin)) + text_of(outputs_part(tx.vout)) + text_of(witnesses_part(tx.vin));
    assert(serialization_head(tx) == v + mk + c);
    assert(s =~= v + (mk + (c + (mid + l))));
    if has_witness(tx.vin) {
        assert(mk =~= "0001"@);
    }
    lemma_frame_fields(s, v, mk, c, mid, l);
}

/// Reading the fields at both ends of a text laid out as a serialization.
proof fn lemma_frame_fields(s: Seq<char>, v: Seq<char>, mk: Seq<char>, c: Seq<char>, mid: Seq<char>, l: Seq<char>)
    requires
        s == v + (mk + (c + (mid + l))),
        v.len() == 8,
        l.len() == 8,
    ensures
        s.len() >= 16 + mk.len() + c.len(),
        s.subrange(0, 8) == v,
        s.subrange(8, 8 + mk.len() as int) == mk,
        s.subrange(8 + mk.len() as int, 8 + mk.len() + c.len() as int) == c,
        s.subrange(s.len() - 8, s.len() as int) == l,
{
    assert(s.subrange(0, 8) =~= v);
    assert(s.subrange(8, 8 + mk.len() as int) =~= mk);
    assert(s.subrange(8 + mk.len() as int, 8 + mk.len() + c.len() as int) =~= c);
    assert(s.subrange(s.len() - 8, s.len() as int) =~= l);
}

/// Reading five consecutive fields of a text from its end.
proof fn lemma_five_fields(s: Seq<char>, a: Seq<char>, b: Seq<char>, c: Seq<char>, d: Seq<char>, e: Seq<char>)
    requires
        s == a + (b + (c + (d + e))),
    ensures
        ({
            let n = s.len() as int;
            let (lb, lc, ld, le) = (b.len() as int, c.len() as int, d.len() as int, e.len() as int);
            &&& s.subrange(0, n - le - ld - lc - lb) == a
            &&& s.subrange(n - le - ld - lc - lb, n - le - ld - lc) == b
            &&& s.subrange(n - le - ld - lc, n - le - ld) == c
            &&& s.subrange(n - le - ld, n - le) == d
            &&& s.subrange(n - le, n) == e
        }),
{
    let n = s.len() as int;
    let (lb, lc, ld, le) = (b.len() as int, c.len() as int, d.len() as int, e.len() as int);
    assert(s.subrange(0, n - le - ld - lc - lb) =~= a);
    assert(s.subrange(n - le - ld - lc - lb, n - le - ld - lc) =~= b);
    assert(s.subrange(n - le - ld - lc, n - le - ld) =~= c);
    assert(s.subrange(n - le - ld, n - le) =~= d);
    assert(s.subrange(n - le, n) =~= e);
}

/// The text hashed for the sequence digest of a signing serialization is
/// the sequence numbers of all inputs, in order, 8 characters each.
pub proof fn law_sequence_digest_input(vin: Seq<InputModel>)
    ensures
        all_parts(vin, sequence_step()) is Text,
        text_of(all_parts(vin, sequence_step())).len() == 8 * vin.len(),
        forall|k: int|
            0 <= k < vin.len() ==> text_of(all_parts(vin, sequence_step())).subrange(8 * k, 8 * k + 8) == hex_le(
                (#[trigger] vin[k]).sequence as nat,
                4,
            ),
    decreases vin.len(),
{
    if vin.len() > 0 {
        let init = vin.drop_last();
        law_sequence_digest_input(init);
        let a = text_of(all_parts(init, sequence_step()));
        let b = hex_le(vin.last().sequence as nat, 4);
        lemma_hex_le_len(vin.last().sequence as nat, 4);
        assert(sequence_step()(vin.last()) == Outcome::Text(b));
        let t = text_of(all_parts(vin, sequence_step()));
        assert(t == a + b);
        assert forall|k: int| 0 <= k < vin.len() implies t.subrange(8 * k, 8 * k + 8) == hex_le(
            (#[trigger] vin[k]).sequence as nat,
            4,
        ) by {
            if k < vin.len() - 1 {
                assert(init[k] == vin[k]);
                assert(t.subrange(8 * k, 8 * k + 8) =~= a.subrange(8 * k, 8 * k + 8));
            } else {
                assert(t.subrange(8 * k, 8 * k + 8) =~= b);
            }
        }
    }
}

/// The text hashed for the outpoint digest of a signing serialization is,
/// for ids written in ASCII, the outpoints of all inputs in order, 72
/// characters each: the id with its byte order reversed, then the output
/// index.
#[verifier::spinoff_prover]
pub proof fn law_outpoint_digest_input(vin: Seq<InputModel>)
    requires
        all_parts(vin, outpoint_step()) is Text,
        forall|k: int| 0 <= k < vin.len() ==> is_ascii_chars(#[trigger] vin[k].txid),
    ensures
        text_of(all_parts(vin, outpoint_step())).len() == 72 * vin.len(),
        forall|k: int|
            0 <= k < vin.len() ==> text_of(all_parts(vin, outpoint_step())).subrange(72 * k, 72 * k + 72)
                == reverse_pair_chars((#[trigger] vin[k]).txid) + hex_le(vin[k].vout as nat, 4),
    decreases vin.len(),
{
    if vin.len() > 0 {
        let init = vin.drop_last();
        let last = vin.last();
        assert(all_parts(init, outpoint_step()) is Text);
        assert forall|k: int| 0 <= k < init.len() implies is_ascii_chars(#[trigger] init[k].txid) by {
            assert(init[k] == vin[k]);
        }
        law_outpoint_digest_input(init);
        let a = text_of(all_parts(init, outpoint_step()));
        assert(outpoint_step()(last) == outpoint_part(last));
        assert(outpoint_part(last) is Text);
        assert(is_ascii_chars(last.txid));
        lemma_ascii_boundaries(last.txid);
        assert(byte_len(last.txid) == 64);
        lemma_reversed_pairs_ascii(last.txid);
        lemma_hex_le_len(last.vout as nat, 4);
        let b = reverse_pair_chars(last.txid) + hex_le(last.vout as nat, 4);
        assert(text_of(outpoint_part(last)) == b);
        let t = text_of(all_parts(vin, outpoint_step()));
        assert(t == a + b);
        assert forall|k: int| 0 <= k < vin.len() implies t.subrange(72 * k, 72 * k + 72)
            == reverse_pair_chars((#[trigger] vin[k]).txid) + hex_le(vin[k].vout as nat, 4) by {
            if k < vin.len() - 1 {
                assert(init[k] == vin[k]);
                assert(t.subrange(72 * k, 72 * k + 72) =~= a.subrange(72 * k, 72 * k + 72));
            } else {
                assert(t.subrange(72 * k, 72 * k + 72) =~= b);
            }
        }
    }
}

/// Reading the fields of a text laid out as a signing serialization, from
/// both ends.
proof fn lemma_signing_fields_of_text(
    s: Seq<char>,
    v: Seq<char>,
    rest: Seq<char>,
    pkh: Seq<char>,
    hv: Seq<char>,
    hs: Seq<char>,
    ho: Seq<char>,
    hl: Seq<char>,
    hh: Seq<char>,
)
    requires
        s == v + (rest + ("14"@ + (pkh + ("88ac"@ + (hv + (hs + (ho + (hl + hh)))))))),
        v.len() == 8,
        hv.len() == 16,
        hs.len() == 8,
        ho.len() == 64,
        hl.len() == 8,
        hh.len() == 8,
    ensures
        ({
            let n = s.len() as int;
            let p = pkh.len() as int;
            &&& n >= 8 + 110 + p + rest.len()
            &&& s.subrange(0, 8) == v
            &&& s.subrange(n - 110 - p, n - 108 - p) == "14"@
            &&& s.subrange(n - 108 - p, n - 108) == pkh
            &&& s.subrange(n - 108, n - 104) == "88ac"@
            &&& s.subrange(n - 104, n - 88) == hv
            &&& s.subrange(n - 88, n - 80) == hs
            &&& s.subrange(n - 80, n - 16) == ho
            &&& s.subrange(n - 16, n - 8) == hl
            &&& s.subrange(n - 8, n) == hh
        }),
{
    reveal_strlit("14");
    reveal_strlit("88ac");
    let t1 = hh;
    let t2 = hl + t1;
    let t3 = ho + t2;
    let t4 = hs + t3;
    let t5 = hv + t4;
    let t6 = "88ac"@ + t5;
    let t7 = pkh + t6;
    let t8 = "14"@ + t7;
    let t9 = rest + t8;
    assert(s.subrange(0, s.len() as int) =~= s);
    lemma_tail_field(s, v, t9);
    lemma_tail_field(s, rest, t8);
    lemma_tail_field(s, "14"@, t7);
    lemma_tail_field(s, pkh, t6);
    lemma_tail_field(s, "88ac"@, t5);
    lemma_tail_field(s, hv, t4);
    lemma_tail_field(s, hs, t3);
    lemma_tail_field(s, ho, t2);
    lemma_tail_field(s, hl, t1);
    assert(hh + Seq::<char>::empty() =~= hh);
    lemma_tail_field(s, hh, Seq::empty());
    assert("14"@.len() == 2 && "88ac"@.len() == 4);
    let n = s.len() as int;
    let p = pkh.len() as int;
    assert(t8.len() == 110 + p);
    assert(s.subrange(0, 8) == v);
    assert(s.subrange(n - 110 - p, n - 108 - p) == "14"@);
    assert(s.subrange(n - 108 - p, n - 108) == pkh);
    assert(s.subrange(n - 108, n - 104) == "88ac"@);
    assert(s.subrange(n - 104, n - 88) == hv);
}

/// When `x + t` ends `s`, so does `t`, and `x` stands just before it.
proof fn lemma_tail_field(s: Seq<char>, x: Seq<char>, t: Seq<char>)
    requires
        s.len() >= x.len() + t.len(),
        s.subrange(s.len() - (x + t).len(), s.len() as int) == x + t,
    ensures
        s.subrange(s.len() - t.len(), s.len() as int) == t,
        s.subrange(s.len() - t.len() - x.len(), s.len() - t.len()) == x,
{
    assert(s.subrange(s.len() - t.len(), s.len() as int) =~= (x + t).subrange(x.len() as int, (x + t).len() as int));
    assert((x + t).subrange(x.len() as int, (x + t).len() as int) =~= t);
    assert(s.subrange(s.len() - t.len() - x.len(), s.len() - t.len()) =~= (x + t).subrange(0, x.len() as int));
    assert((x + t).subrange(0, x.len() as int) =~= x);
}

} // verus!
