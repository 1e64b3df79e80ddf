use walletd_blockstream::error::{Error, HexError};
use walletd_blockstream::model::{BTransaction, Input, Output, Status};

fn text(s: &str) -> String {
    s.to_string()
}

fn output(value: u64, scriptpubkey: &str) -> Output {
    Output {
        scriptpubkey: text(scriptpubkey),
        scriptpubkey_asm: String::new(),
        scriptpubkey_type: String::new(),
        scriptpubkey_address: String::new(),
        pubkeyhash: String::new(),
        value,
    }
}

fn input(txid: &str, vout: u32, scriptsig: &str, sequence: u32, witness: Vec<&str>) -> Input {
    Input {
        txid: text(txid),
        vout,
        prevout: Output::default(),
        scriptsig: text(scriptsig),
        scriptsig_asm: String::new(),
        witness: witness.into_iter().map(text).collect(),
        is_coinbase: false,
        sequence,
        inner_redeemscript_asm: String::new(),
    }
}

fn transaction(version: i32, vin: Vec<Input>, vout: Vec<Output>, locktime: u32) -> BTransaction {
    BTransaction {
        txid: String::new(),
        version,
        locktime,
        vin,
        vout,
        size: 0,
        weight: 0,
        fee: 0,
        status: Status::default(),
    }
}

const GENESIS_SCRIPTSIG: &str = "04ffff001d0104455468652054696d65732030332f4a616e2f32303039204368616e63656c6c6f72206f6e206272696e6b206f66207365636f6e64206261696c6f757420666f722062616e6b73";
const GENESIS_PUBKEY_SCRIPT: &str = "4104678afdb0fe5548271967f1a67130b7105cd6a828e03909a67962e0ea1f61deb649f6bc3f4cef38c4f35504e51ec112de5c384df7ba0b8d578a4c702b6bf11d5fac";
const GENESIS_RAW: &str = "01000000010000000000000000000000000000000000000000000000000000000000000000ffffffff4d04ffff001d0104455468652054696d65732030332f4a616e2f32303039204368616e63656c6c6f72206f6e206272696e6b206f66207365636f6e64206261696c6f757420666f722062616e6b73ffffffff0100f2052a01000000434104678afdb0fe5548271967f1a67130b7105cd6a828e03909a67962e0ea1f61deb649f6bc3f4cef38c4f35504e51ec112de5c384df7ba0b8d578a4c702b6bf11d5fac00000000";

fn genesis() -> BTransaction {
    transaction(
        1,
        vec![input(
            "0000000000000000000000000000000000000000000000000000000000000000",
            0xFFFF_FFFF,
            GENESIS_SCRIPTSIG,
            0xFFFF_FFFF,
            vec![],
        )],
        vec![output(5_000_000_000, GENESIS_PUBKEY_SCRIPT)],
        0,
    )
}

const BIP143_PREV0: &str = "9f96ade4b41d5433f4eda31e1738ec2b36f6e7d1420d94a6af99801a88f7f7ff";
const BIP143_PREV1: &str = "8ac60eb9575db5b2d987e29f301b5b819ea83a5c6579d282d189cc04b8e151ef";
const BIP143_UNSIGNED: &str = "0100000002fff7f7881a8099afa6940d42d1e7f6362bec38171ea3edf433541db4e4ad969f0000000000eeffffffef51e1b804cc89d182d279655c3aa89e815b1b309fe287d9b2b55d57b90ec68a0100000000ffffffff02202cb206000000001976a9148280b37df378db99f66f85c95a783a76ac7a6d5988ac9093510d000000001976a9143bde42dbee7e4dbe6a21b2d50ce2f0167faa815988ac11000000";
const WITNESS_SIG: &str = "304402203609e17b84f6a7d30c80bfa610b5b4542f32a8a0d5447a12fb1366d7f01cc44a0220573a954c4518331561406f90300e8f3358f51928d43c212a8caed02de67eebee01";
const WITNESS_KEY: &str = "025476c2e83188368da1ff3e292e7acafcdb3566bb0ad253f62fc70f07aeee6357";

fn bip143(witness: Vec<&str>) -> BTransaction {
    let mut second = input(BIP143_PREV1, 1, "", 0xFFFF_FFFF, witness);
    second.prevout.value = 600_000_000;
    second.prevout.pubkeyhash = text("1d0f172a0ecb48aee1be1f2687d2963ae33f71a1");
    transaction(
        1,
        vec![input(BIP143_PREV0, 0, "", 0xFFFF_FFEE, vec![]), second],
        vec![
            output(112_340_000, "76a9148280b37df378db99f66f85c95a783a76ac7a6d5988ac"),
            output(223_450_000, "76a9143bde42dbee7e4dbe6a21b2d50ce2f0167faa815988ac"),
        ],
        17,
    )
}

#[test]
fn hex_reverse_byte_order_reverses_pairs() {
    assert_eq!(BTransaction::hex_reverse_byte_order(&text("abcdef")).unwrap(), "efcdab");
    assert_eq!(BTransaction::hex_reverse_byte_order(&text("")).unwrap(), "");
    assert_eq!(BTransaction::hex_reverse_byte_order(&text("01")).unwrap(), "01");
}

#[test]
fn hex_reverse_byte_order_refuses_odd_length() {
    assert!(matches!(BTransaction::hex_reverse_byte_order(&text("abc")), Err(Error::ScriptInvalid(_))));
}

#[test]
fn hex_reverse_byte_order_twice_is_identity() {
    let original = text("4a5e1e4baab89f3a32518a88c31bc87f618f76673e2cc77ab2127b7afdeda33b");
    let once = BTransaction::hex_reverse_byte_order(&original).unwrap();
    assert_eq!(once, "3ba3edfd7a7b12b27ac72c3e67768f617fc81bc3888a51323a9fb8aa4b1e5e4a");
    assert_eq!(BTransaction::hex_reverse_byte_order(&once).unwrap(), original);
}

#[test]
fn variable_length_integer_encoding_boundaries() {
    let enc = |n: usize| BTransaction::variable_length_integer_encoding(n).unwrap();
    assert_eq!(enc(0), vec![0x00]);
    assert_eq!(enc(0xFC), vec![0xFC]);
    assert_eq!(enc(0xFD), vec![0xFD, 0xFD, 0x00]);
    assert_eq!(enc(0xFFFF), vec![0xFD, 0xFF, 0xFF]);
    assert_eq!(enc(0x1_0000), vec![0xFE, 0x00, 0x00, 0x01, 0x00]);
    assert_eq!(enc(0xFFFF_FFFF), vec![0xFE, 0xFF, 0xFF, 0xFF, 0xFF]);
    assert_eq!(enc(0x1_0000_0000), vec![0xFF, 0x00, 0x00, 0x00, 0x00, 0x01, 0x00, 0x00, 0x00]);
}

#[test]
fn serialize_genesis_coinbase() {
    assert_eq!(BTransaction::serialize(&genesis()).unwrap(), GENESIS_RAW);
}

#[test]
fn txid_of_genesis_coinbase() {
    let tx = genesis();
    assert_eq!(tx.txid().unwrap(), "3ba3edfd7a7b12b27ac72c3e67768f617fc81bc3888a51323a9fb8aa4b1e5e4a");
    assert_eq!(tx.txid_blockchain().unwrap(), "4a5e1e4baab89f3a32518a88c31bc87f618f76673e2cc77ab2127b7afdeda33b");
}

#[test]
fn txid_equals_wtxid_without_witness() {
    let tx = genesis();
    assert_eq!(tx.txid().unwrap(), tx.wtxid().unwrap());
}

#[test]
fn ntxid_ignores_signature_script() {
    let tx = genesis();
    let mut other = genesis();
    other.vin[0].scriptsig = String::new();
    other.vin[0].scriptsig_asm = text("anything");
    assert_eq!(tx.ntxid().unwrap(), other.ntxid().unwrap());
    assert_ne!(tx.txid().unwrap(), other.txid().unwrap());
}

#[test]
fn serialize_unsigned_bip143_example() {
    assert_eq!(BTransaction::serialize(&bip143(vec![])).unwrap(), BIP143_UNSIGNED);
}

#[test]
fn serialize_with_witness_adds_marker_and_witnesses() {
    let tx = bip143(vec![WITNESS_SIG, WITNESS_KEY]);
    let expected = "01000000000102fff7f7881a8099afa6940d42d1e7f6362bec38171ea3edf433541db4e4ad969f0000000000eeffffffef51e1b804cc89d182d279655c3aa89e815b1b309fe287d9b2b55d57b90ec68a0100000000ffffffff02202cb206000000001976a9148280b37df378db99f66f85c95a783a76ac7a6d5988ac9093510d000000001976a9143bde42dbee7e4dbe6a21b2d50ce2f0167faa815988ac000247304402203609e17b84f6a7d30c80bfa610b5b4542f32a8a0d5447a12fb1366d7f01cc44a0220573a954c4518331561406f90300e8f3358f51928d43c212a8caed02de67eebee0121025476c2e83188368da1ff3e292e7acafcdb3566bb0ad253f62fc70f07aeee635711000000";
    assert_eq!(BTransaction::serialize(&tx).unwrap(), expected);
    assert_eq!(tx.wtxid().unwrap(), "023b2d7da94cea6ac483913253ad8632988438f094b883679d4bc27b3f29643b");
    assert_eq!(tx.txid().unwrap(), "4302c449ad95afbf3241fe001f3712e9c80594b412dee807540cf20daeff3533");
    assert_eq!(tx.txid().unwrap(), bip143(vec![]).txid().unwrap());
}

#[test]
fn segwit_signing_serialization_bip143_example() {
    let tx = bip143(vec![]);
    let expected = "0100000096b827c8483d4e9b96712b6713a7b68d6e8003a781feba36c31143470b4efd3752b0a642eea2fb7ae638c36f6252b6750293dbe574a806984b8e4d8548339a3bef51e1b804cc89d182d279655c3aa89e815b1b309fe287d9b2b55d57b90ec68a010000001976a9141d0f172a0ecb48aee1be1f2687d2963ae33f71a188ac0046c32300000000ffffffff863ef3e1a92afbfdb97f31ad0fc7683ee943e9abcf2501590ff8f6551f47e5e51100000001000000";
    assert_eq!(tx.serialize_for_segwit_input_index_with_sighash(1, 1).unwrap(), expected);
    assert_eq!(
        tx.transaction_hash_for_signing_segwit_input_index(1, 1).unwrap(),
        "c37af31116d1b27caf68aae9e3ac82f1477929014d5b917657d0eb49478cb670"
    );
}

#[test]
fn serialize_refuses_short_txid() {
    let tx = transaction(1, vec![input("abcd", 0, "", 0, vec![])], vec![], 0);
    assert!(matches!(BTransaction::serialize(&tx), Err(Error::TxId(_))));
    assert!(matches!(tx.serialize_for_segwit_input_index_with_sighash(0, 1), Err(Error::TxId(_))));
}

#[test]
fn serialize_refuses_odd_scripts() {
    let zero = "0000000000000000000000000000000000000000000000000000000000000000";
    let odd_sig = transaction(1, vec![input(zero, 0, "abc", 0, vec![])], vec![], 0);
    assert!(matches!(BTransaction::serialize(&odd_sig), Err(Error::ScriptInvalid(_))));
    let odd_out = transaction(1, vec![], vec![output(1, "abc")], 0);
    assert!(matches!(BTransaction::serialize(&odd_out), Err(Error::ScriptInvalid(_))));
    let odd_witness = transaction(1, vec![input(zero, 0, "", 0, vec!["abc"])], vec![], 0);
    assert!(matches!(BTransaction::serialize(&odd_witness), Err(Error::ScriptInvalid(_))));
}

#[test]
fn serialize_refuses_long_witness_item() {
    let zero = "0000000000000000000000000000000000000000000000000000000000000000";
    let long_item = "ab".repeat(256);
    let tx = transaction(1, vec![input(zero, 0, "", 0, vec![long_item.as_str()])], vec![], 0);
    assert!(matches!(BTransaction::serialize(&tx), Err(Error::TryFromInt)));
    let fits = "ab".repeat(255);
    let tx2 = transaction(1, vec![input(zero, 0, "", 0, vec![fits.as_str()])], vec![], 0);
    let s = BTransaction::serialize(&tx2).unwrap();
    assert!(s.contains(&format!("01ff{}", fits)));
}

#[test]
fn txid_reports_text_that_is_not_hex() {
    let zero = "0000000000000000000000000000000000000000000000000000000000000000";
    let tx = transaction(1, vec![input(zero, 0, "zz", 0, vec![])], vec![], 0);
    let serialized = BTransaction::serialize(&tx).unwrap();
    let index = serialized.find("zz").unwrap();
    match tx.txid() {
        Err(Error::Hex(HexError::InvalidHexCharacter { c, index: i })) => {
            assert_eq!(c, 'z');
            assert_eq!(i, index);
        },
        other => panic!("unexpected {:?}", other),
    }
}

#[test]
fn input_default_has_final_sequence() {
    let i = Input::default();
    assert_eq!(i.sequence, 0xFFFF_FFFF);
    assert!(i.txid.is_empty());
    assert!(i.witness.is_empty());
    assert_eq!(i.prevout.value, 0);
}

#[test]
fn refusals_carry_their_messages() {
    let zero = "0000000000000000000000000000000000000000000000000000000000000000";
    let short = transaction(1, vec![input("abcd", 0, "", 0, vec![])], vec![], 0);
    match BTransaction::serialize(&short) {
        Err(Error::TxId(m)) => assert_eq!(m, "The reference txid in hex format should be 64 characters long"),
        other => panic!("unexpected {:?}", other),
    }
    match short.serialize_for_segwit_input_index_with_sighash(0, 1) {
        Err(Error::TxId(m)) => assert_eq!(m, "The references txid in hex format should be 64 characters long"),
        other => panic!("unexpected {:?}", other),
    }
    let odd_sig = transaction(1, vec![input(zero, 0, "abc", 0, vec![])], vec![], 0);
    match BTransaction::serialize(&odd_sig) {
        Err(Error::ScriptInvalid(m)) => assert_eq!(m, "Length of script_sig should be a multiple of 2"),
        other => panic!("unexpected {:?}", other),
    }
    let odd_out = transaction(1, vec![], vec![output(1, "abc")], 0);
    match BTransaction::serialize(&odd_out) {
        Err(Error::ScriptInvalid(m)) => assert_eq!(m, "Length of scriptpubkey should be a multiple of 2"),
        other => panic!("unexpected {:?}", other),
    }
    let odd_witness = transaction(1, vec![input(zero, 0, "", 0, vec!["abc"])], vec![], 0);
    match BTransaction::serialize(&odd_witness) {
        Err(Error::ScriptInvalid(m)) => assert_eq!(m, "Witness data length in hex should be a multiple of 2"),
        other => panic!("unexpected {:?}", other),
    }
    match BTransaction::hex_reverse_byte_order(&text("abc")) {
        Err(Error::ScriptInvalid(m)) => assert_eq!(m, "The hex string should have a length that is a multiple of 2"),
        other => panic!("unexpected {:?}", other),
    }
}

#[test]
fn ids_and_signing_texts_have_fixed_lengths() {
    let tx = bip143(vec![WITNESS_SIG, WITNESS_KEY]);
    assert_eq!(tx.txid().unwrap().len(), 64);
    assert_eq!(tx.wtxid().unwrap().len(), 64);
    assert_eq!(tx.ntxid().unwrap().len(), 64);
    assert_eq!(tx.txid_blockchain().unwrap().len(), 64);
    assert_eq!(tx.transaction_hash_for_signing_segwit_input_index(0, 1).unwrap().len(), 64);
    let plain = bip143(vec![]);
    for index in 0..2 {
        let s = plain.serialize_for_segwit_input_index_with_sighash(index, 1).unwrap();
        let p = plain.vin[index].prevout.pubkeyhash.len();
        assert_eq!(s.len(), 324 + p);
    }
}

#[test]
fn signing_texts_of_two_inputs_share_start_and_end() {
    let tx = bip143(vec![]);
    let a = tx.serialize_for_segwit_input_index_with_sighash(0, 1).unwrap();
    let b = tx.serialize_for_segwit_input_index_with_sighash(1, 1).unwrap();
    assert_eq!(&a[..136], &b[..136]);
    assert_eq!(&a[a.len() - 80..], &b[b.len() - 80..]);
    assert_ne!(a, b);
}

#[test]
fn ntxid_is_txid_with_signatures_cleared() {
    let tx = genesis();
    let mut cleared = genesis();
    for input in cleared.vin.iter_mut() {
        input.scriptsig = String::new();
        input.scriptsig_asm = String::new();
    }
    assert_eq!(tx.ntxid().unwrap(), cleared.txid().unwrap());
}

fn decode_variable_length_integer(v: &[u8]) -> u64 {
    match v[0] {
        0xFD => {
            assert_eq!(v.len(), 3);
            u16::from_le_bytes([v[1], v[2]]) as u64
        },
        0xFE => {
            assert_eq!(v.len(), 5);
            u32::from_le_bytes([v[1], v[2], v[3], v[4]]) as u64
        },
        0xFF => {
            assert_eq!(v.len(), 9);
            u64::from_le_bytes([v[1], v[2], v[3], v[4], v[5], v[6], v[7], v[8]])
        },
        b => {
            assert_eq!(v.len(), 1);
            b as u64
        },
    }
}

#[test]
fn variable_length_integer_decodes_back() {
    for n in [0usize, 1, 0xFC, 0xFD, 0xFE, 0xFFFF, 0x1_0000, 0x1234_5678, 0xFFFF_FFFF, 0x1_0000_0000, usize::MAX] {
        let v = BTransaction::variable_length_integer_encoding(n).unwrap();
        assert_eq!(decode_variable_length_integer(&v), n as u64);
    }
}

#[test]
fn blockchain_id_reversed_back_is_txid() {
    let tx = bip143(vec![WITNESS_SIG, WITNESS_KEY]);
    let id = tx.txid().unwrap();
    let blockchain_id = tx.txid_blockchain().unwrap();
    assert_eq!(BTransaction::hex_reverse_byte_order(&blockchain_id).unwrap(), id);
}

#[test]
fn txid_errors_ignore_witness() {
    let a = transaction(1, vec![input("abcd", 0, "", 0, vec![])], vec![], 0);
    let b = transaction(1, vec![input("abcd", 0, "", 0, vec!["00", "beef"])], vec![], 0);
    match (a.txid(), b.txid()) {
        (Err(Error::TxId(x)), Err(Error::TxId(y))) => assert_eq!(x, y),
        other => panic!("unexpected {:?}", other),
    }
}
