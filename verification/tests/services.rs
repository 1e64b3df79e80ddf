use walletd_blockstream::blockstream::{broadcast_outcome, parse_block_count, raw_transaction_hex_from_body};
use walletd_blockstream::error::Error;
use walletd_blockstream::fee::confirmation_targets;
use walletd_blockstream::model::{BTransaction, Input, Output, Status};
use walletd_blockstream::overview::{amounts_fit_in_u64, overview_rows};
use walletd_blockstream::solana::{SolanaFormat, SolanaWallet};

#[test]
fn block_count_from_body() {
    assert_eq!(parse_block_count("773876").unwrap(), 773876);
    assert_eq!(parse_block_count("+12").unwrap(), 12);
    assert!(matches!(parse_block_count("77 3876"), Err(Error::FromStr(_))));
    assert!(matches!(parse_block_count(""), Err(Error::FromStr(_))));
    assert!(matches!(parse_block_count("-1"), Err(Error::FromStr(_))));
    assert!(matches!(parse_block_count("18446744073709551616"), Err(Error::FromStr(_))));
    assert_eq!(parse_block_count("18446744073709551615").unwrap(), u64::MAX);
}

#[test]
fn broadcast_outcome_by_status() {
    assert_eq!(broadcast_outcome(200, "txid".to_string()).unwrap(), "txid");
    assert_eq!(broadcast_outcome(302, "moved".to_string()).unwrap(), "moved");
    match broadcast_outcome(400, "bad".to_string()) {
        Err(Error::BroadcastTransaction(s)) => assert_eq!(s, "bad"),
        other => panic!("unexpected {:?}", other),
    }
    assert!(matches!(broadcast_outcome(503, "down".to_string()), Err(Error::BroadcastTransaction(_))));
    assert!(broadcast_outcome(600, "odd".to_string()).is_ok());
}

#[test]
fn raw_transaction_hex_is_the_body() {
    assert_eq!(raw_transaction_hex_from_body("0100"), "0100");
    assert_eq!(raw_transaction_hex_from_body(""), "");
}

#[test]
fn confirmation_targets_sorted() {
    let keys: Vec<String> = vec!["25", "1", "144", "2", "1008"].into_iter().map(|s| s.to_string()).collect();
    assert_eq!(confirmation_targets(&keys), vec![1, 2, 25, 144, 1008]);
    assert_eq!(confirmation_targets(&Vec::new()), Vec::<u32>::new());
}

#[test]
fn solana_format_name() {
    assert_eq!(SolanaFormat::Standard.to_string(), "Standard");
    assert_eq!(SolanaFormat::default(), SolanaFormat::Standard);
}

#[test]
fn solana_addresses_in_base58() {
    assert_eq!(SolanaWallet::public_address_from_public_key(&vec![0, 0, 1, 2, 3]), "11Ldp");
    let private_key: [u8; 32] = core::array::from_fn(|i| (i + 1) as u8);
    let mut public_key = [0u8; 33];
    public_key[0] = 2;
    for i in 1..33 {
        public_key[i] = (99 + i) as u8;
    }
    assert_eq!(
        SolanaWallet::keypair_base58(&private_key, &public_key),
        "2Ana1pUpv2ZbMVkwF5FXapYeBEjdxDatLn7nvJkhgTSc8RsjdBF4w2GSfHj5QYHd47bXiDQ5YJ7hMCDqDRjK3fp"
    );
}

#[test]
fn solana_wallet_display_text() {
    let wallet = SolanaWallet::new(
        SolanaFormat::Standard,
        "11Ldp".to_string(),
        "0102".to_string(),
        "0203".to_string(),
        [7u8; 64],
        "testnet".to_string(),
        None,
    );
    assert_eq!(
        wallet.to_string(),
        "Solana Wallet\n Network: testnet\n Private Key: 0102\n Public Key: 0203\n Address Format: Standard\n Public Address: 11Ldp\n"
    );
}

fn paying(txid: &str, block_time: u32, confirmed: bool, to: &str, value: u64, from: &str, spent: u64) -> BTransaction {
    let mut prevout = Output::default();
    prevout.scriptpubkey_address = from.to_string();
    prevout.value = spent;
    let mut input = Input::default();
    input.prevout = prevout;
    let mut out = Output::default();
    out.scriptpubkey_address = to.to_string();
    out.value = value;
    let mut status = Status::default();
    status.confirmed = confirmed;
    status.block_time = block_time;
    BTransaction {
        txid: txid.to_string(),
        version: 2,
        locktime: 0,
        vin: vec![input],
        vout: vec![out],
        size: 0,
        weight: 0,
        fee: 0,
        status,
    }
}

#[test]
fn overview_keeps_each_transaction_once_sorted_by_time() {
    let addresses = vec!["A".to_string(), "B".to_string()];
    let fetched = vec![
        vec![
            paying("t1", 300, true, "A", 5_000, "X", 9_000),
            paying("t2", 100, false, "Y", 1_000, "A", 4_000),
        ],
        vec![paying("t1", 300, true, "A", 5_000, "X", 9_000), paying("t3", 100, true, "B", 700, "Z", 1)],
    ];
    let rows = overview_rows(&addresses, &fetched).unwrap();
    assert_eq!(rows.len(), 3);
    let ids: Vec<&str> = rows.iter().map(|r| r.txid.as_str()).collect();
    assert_eq!(ids, vec!["t2", "t3", "t1"]);
    // the listed address follows the order in which transactions were kept
    let owners: Vec<&str> = rows.iter().map(|r| r.owner_address.as_str()).collect();
    assert_eq!(owners, vec!["A", "A", "B"]);
    assert_eq!(rows[0].received_satoshi, 0);
    assert_eq!(rows[0].sent_satoshi, 4_000);
    assert!(!rows[0].incoming);
    assert_eq!(rows[0].net_satoshi, 4_000);
    assert_eq!(rows[0].status, "Pending Confirmation");
    assert_eq!(rows[0].timestamp, "");
    assert_eq!(rows[1].received_satoshi, 700);
    assert!(rows[1].incoming);
    assert_eq!(rows[2].net_satoshi, 5_000);
    assert_eq!(rows[2].status, "Confirmed");
    assert_eq!(rows[2].timestamp, "Thu, 01 Jan 1970 00:05:00 +0000");
}

#[test]
fn overview_of_no_transactions() {
    let rows = overview_rows(&vec!["A".to_string()], &vec![vec![]]).unwrap();
    assert!(rows.is_empty());
}

#[test]
fn overview_amounts_fit_per_transaction() {
    let addresses = vec!["A".to_string()];
    // Two transactions whose totals together overflow but each fits.
    let big = vec![vec![
        paying("t1", 1, true, "A", u64::MAX, "X", 0),
        paying("t2", 2, true, "A", u64::MAX, "X", 0),
    ]];
    assert!(amounts_fit_in_u64(&addresses, &big));
    assert_eq!(overview_rows(&addresses, &big).unwrap().len(), 2);
    // One transaction paying the wallet twice past the 64-bit range.
    let mut doubled = paying("t3", 3, true, "A", u64::MAX, "X", 0);
    doubled.vout.push(doubled.vout[0].clone());
    assert!(!amounts_fit_in_u64(&addresses, &vec![vec![doubled]]));
    // Spent amounts are checked too.
    let mut spent = paying("t4", 4, true, "Y", 1, "A", u64::MAX);
    spent.vin.push(spent.vin[0].clone());
    assert!(!amounts_fit_in_u64(&addresses, &vec![vec![spent]]));
}
