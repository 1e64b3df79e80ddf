use walletd_blockstream::address::{AddressInfo, AddressType};
use walletd_blockstream::display::Cell;
use walletd_blockstream::error::Error;
use walletd_blockstream::input_type::InputType;
use walletd_blockstream::model::{Input, Output, Status};
use walletd_blockstream::utxo::{BitcoinAmount, Utxo, Utxos};

fn output_of(kind: &str, assembly: &str) -> Output {
    let mut o = Output::default();
    o.scriptpubkey_type = kind.to_string();
    o.scriptpubkey_asm = assembly.to_string();
    o
}

fn utxo(value: u64) -> Utxo {
    let mut u = Utxo::default();
    u.value = value;
    u
}

#[test]
fn input_type_from_script_kind() {
    assert_eq!(InputType::new(&output_of("p2pkh", "")).unwrap(), InputType::P2pkh);
    assert_eq!(InputType::new(&output_of("v0_p2wsh", "")).unwrap(), InputType::P2wsh);
    assert_eq!(InputType::new(&output_of("v0_p2wpkh", "")).unwrap(), InputType::P2wpkh);
    assert!(matches!(InputType::new(&output_of("v1_p2tr", "")), Err(Error::CurrentlyNotSupported(_))));
    assert!(matches!(InputType::new(&output_of("P2PKH", "")), Err(Error::CurrentlyNotSupported(_))));
}

#[test]
fn input_type_nested_segwit_by_second_word() {
    assert_eq!(
        InputType::new(&output_of("p2sh", "OP_HASH160 OP_PUSHBYTES_22 0014abcd OP_EQUAL")).unwrap(),
        InputType::P2sh2Wpkh
    );
    assert_eq!(
        InputType::new(&output_of("p2sh", "  OP_0\tOP_PUSHBYTES_34  rest")).unwrap(),
        InputType::P2sh2Wsh
    );
    assert_eq!(
        InputType::new(&output_of("p2sh", "OP_HASH160 OP_PUSHBYTES_20 abcd OP_EQUAL")).unwrap(),
        InputType::P2sh
    );
    assert_eq!(InputType::new(&output_of("p2sh", "OP_PUSHBYTES_22")).unwrap(), InputType::P2sh);
    assert_eq!(InputType::new(&output_of("p2sh", "")).unwrap(), InputType::P2sh);
}

#[test]
fn input_type_segwit_kinds() {
    assert!(!InputType::P2pkh.is_segwit());
    assert!(!InputType::P2sh.is_segwit());
    assert!(InputType::P2wsh.is_segwit());
    assert!(InputType::P2wpkh.is_segwit());
    assert!(InputType::P2sh2Wpkh.is_segwit());
    assert!(InputType::P2sh2Wsh.is_segwit());
}

#[test]
fn utxos_sum_and_push() {
    let mut list = Utxos::new();
    assert!(list.is_empty());
    assert_eq!(list.sum().unwrap(), BitcoinAmount { satoshi: 0 });
    list.push(utxo(1_000));
    list.push(utxo(2_500));
    assert!(!list.is_empty());
    assert_eq!(list.sum().unwrap().satoshi, 3_500);
    list.push(utxo(7));
    assert_eq!(list.sum().unwrap().satoshi, 3_507);
    let values: Vec<u64> = list.iter().map(|u| u.value).collect();
    assert_eq!(values, vec![1_000, 2_500, 7]);
}

#[test]
fn bitcoin_amount_from_satoshi() {
    assert_eq!(BitcoinAmount::from_satoshi(42).satoshi, 42);
}

#[test]
fn timestamp_of_confirmed_and_unconfirmed() {
    let mut s = Status::default();
    assert_eq!(s.timestamp().unwrap(), "");
    s.confirmed = true;
    s.block_time = 0;
    assert_eq!(s.timestamp().unwrap(), "Thu, 01 Jan 1970 00:00:00 +0000");
    s.block_time = 1_231_006_505;
    assert_eq!(s.timestamp().unwrap(), "Sat, 03 Jan 2009 18:15:05 +0000");
    s.block_time = u32::MAX;
    assert_eq!(s.timestamp().unwrap(), "Sun, 07 Feb 2106 06:28:15 +0000");
}

#[test]
fn output_rows_skip_empty_fields() {
    let mut o = Output::default();
    o.scriptpubkey = "76a9".to_string();
    o.scriptpubkey_address = "1Abc".to_string();
    o.value = 150_000_000;
    let rows = o.table_rows();
    let labels: Vec<&str> = rows.iter().map(|r| r.0).collect();
    assert_eq!(labels, vec!["ScriptPubKey", "ScriptPubKey Address", "Value (BTC)"]);
    assert!(matches!(&rows[0].1, Cell::Text(t) if t == "76a9"));
    assert!(matches!(rows[2].1, Cell::Btc(150_000_000)));
}

#[test]
fn input_rows_join_witness() {
    let mut i = Input::default();
    i.txid = "ab".to_string();
    i.vout = 3;
    i.witness = vec!["01".to_string(), "02".to_string(), "03".to_string()];
    let rows = i.table_rows();
    let labels: Vec<&str> = rows.iter().map(|r| r.0).collect();
    assert_eq!(labels, vec!["Input Tx ID", "Amount (BTC)", "Witness", "Is Coinbase", "Sequence"]);
    assert!(matches!(rows[1].1, Cell::Btc(3)));
    assert!(matches!(&rows[2].1, Cell::Text(t) if t == "01 02 03"));
    assert!(matches!(rows[4].1, Cell::Number(0xFFFF_FFFF)));
}

#[test]
fn status_rows() {
    let mut s = Status::default();
    s.confirmed = true;
    s.block_height = 7;
    s.block_hash = "00ff".to_string();
    let rows = s.table_rows();
    assert_eq!(rows.len(), 4);
    assert!(matches!(rows[0].1, Cell::Flag(true)));
    assert!(matches!(rows[1].1, Cell::Number(7)));
    assert!(matches!(&rows[3].1, Cell::Text(t) if t == "Thu, 01 Jan 1970 00:00:00 +0000"));
}

fn address(kind: Option<AddressType>) -> AddressInfo {
    AddressInfo {
        address: "bc1qexample".to_string(),
        address_type: kind,
        script_pubkey_asm: "OP_0 OP_PUSHBYTES_20 0011".to_string(),
        script_pubkey: vec![0x00, 0x14, 0xAB],
    }
}

#[test]
fn set_scriptpubkey_info_records_script() {
    let mut o = Output::default();
    o.set_scriptpubkey_info(address(Some(AddressType::P2wpkh))).unwrap();
    assert_eq!(o.scriptpubkey_address, "bc1qexample");
    assert_eq!(o.scriptpubkey_type, "v0_p2wpkh");
    assert_eq!(o.scriptpubkey_asm, "OP_0 OP_PUSHBYTES_20 0011");
    assert_eq!(o.scriptpubkey, "0014ab");
    let mut p = Output::default();
    p.set_scriptpubkey_info(address(Some(AddressType::P2sh))).unwrap();
    assert_eq!(p.scriptpubkey_type, "p2sh");
}

#[test]
fn set_scriptpubkey_info_refuses_taproot() {
    let mut o = Output::default();
    let r = o.set_scriptpubkey_info(address(Some(AddressType::P2tr)));
    assert!(matches!(r, Err(Error::CurrentlyNotSupported(_))));
    assert_eq!(o.scriptpubkey_address, "bc1qexample");
    assert_eq!(o.scriptpubkey_type, "");
    assert_eq!(o.scriptpubkey, "");
}

#[test]
fn white_space_matches_char_is_whitespace() {
    for n in 0u32..=0x10FFFF {
        if let Some(c) = char::from_u32(n) {
            assert_eq!(walletd_blockstream::words::is_white_space(c), c.is_whitespace(), "U+{:04X}", n);
        }
    }
}
