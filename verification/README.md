# walletd_blockstream

Bitcoin transaction records as the Blockstream Esplora API returns them, and
what is computed from them, with contracts proved by Verus:

- `transaction`, `wire`: serialization of a transaction into the wire format
  (hexadecimal text), byte-order reversal of hexadecimal ids, variable-length
  integers;
- `ids`: transaction ids (`txid`, `wtxid`, `ntxid`, block-chain order) and the
  BIP 143 signing serialization and hash of a segwit input;
- `input_type`, `address`, `utxo`, `status`, `display`, `overview`, `fee`,
  `blockstream`, `solana`: input kinds, output scripts from addresses, unspent
  outputs, timestamps, table rows, the transaction history of a wallet, fee
  estimate targets, answers of the API, Solana key pairs;
- `laws`: properties that relate several functions.

Calls into `hex`, `bitcoin_hashes`, `time`, `base58` and a few
std parsers sit behind small trusted wrappers, each documented with what its
contract claims.

`app/` holds the HTTP client, the JSON records with serde derives, and the
tables drawn with prettytable.
