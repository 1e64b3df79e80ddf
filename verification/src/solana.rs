use vstd::prelude::*;

verus! {

broadcast use vstd::string::to_string_from_display_ensures_for_str;

/// The Base58 text (Bitcoin alphabet) of a byte sequence.
pub uninterp spec fn base58_text(bytes: Seq<u8>) -> Seq<char>;

/// `base58::ToBase58::to_base58` on a byte slice: Base58 with the Bitcoin
/// alphabet, one '1' for each leading zero byte. Only named here: the
/// contract ties the text to the bytes and says nothing of its shape.
#[verifier::external_body]
fn to_base58(bytes: &[u8]) -> (r: String)
    ensures
        r@ == base58_text(bytes@),
{
    base58::ToBase58::to_base58(bytes)
}

/// The address formats of a Solana wallet.
#[derive(Debug, Clone, Copy, PartialEq, Eq, Structural)]
pub enum SolanaFormat {
    /// The standard format.
    Standard,
}

impl Default for SolanaFormat {
    fn default() -> (r: Self)
        ensures
            r == SolanaFormat::Standard,
    {
        SolanaFormat::Standard
    }
}

impl SolanaFormat {
    /// The name of the format.
    pub fn to_string(&self) -> (r: String)
        ensures
            r@ == "Standard"@,
    {
        match self {
            SolanaFormat::Standard => "Standard".to_string(),
        }
    }
}

/// A Solana wallet: its keys and address as text, its key pair, and the
/// name of the network it belongs to.
#[allow(dead_code)]
pub struct SolanaWallet {
    address_format: SolanaFormat,
    public_address: String,
    private_key: String,
    public_key: String,
    keypair: [u8; 64],
    network: String,
    seed_hex: Option<String>,
}

/// The plain values of a [`SolanaWallet`].
pub struct SolanaWalletModel {
    pub address_format: SolanaFormat,
    pub public_address: Seq<char>,
    pub private_key: Seq<char>,
    pub public_key: Seq<char>,
    pub keypair: Seq<u8>,
    pub network: Seq<char>,
    pub seed_hex: Option<Seq<char>>,
}

impl View for SolanaWallet {
    type V = SolanaWalletModel;

    closed spec fn view(&self) -> SolanaWalletModel {
        SolanaWalletModel {
            address_format: self.address_format,
            public_address: self.public_address@,
            private_key: self.private_key@,
            public_key: self.public_key@,
            keypair: self.keypair@,
            network: self.network@,
            seed_hex: match self.seed_hex {
                Some(h) => Some(h@),
                None => None,
            },
        }
    }
}

/// The text a wallet is shown as: a title line, then one indented line each
/// for the network, private key, public key, address format and public address.
pub open spec fn wallet_text(w: SolanaWalletModel) -> Seq<char> {
    "Solana Wallet\n"@ + " Network: "@ + w.network + "\n"@ + " Private Key: "@ + w.private_key + "\n"@
        + " Public Key: "@ + w.public_key + "\n"@ + " Address Format: "@ + "Standard"@ + "\n"@
        + " Public Address: "@ + w.public_address + "\n"@
}

/// The 64-byte key pair of a 32-byte private key and a 33-byte public key
/// whose first byte is a prefix: the private key, then the public key
/// without its prefix.
pub open spec fn keypair_bytes(private_key: Seq<u8>, public_key: Seq<u8>) -> Seq<u8> {
    private_key + public_key.subrange(1, 33)
}

impl SolanaWallet {
    /// A wallet made of its parts.
    pub fn new(
        address_format: SolanaFormat,
        public_address: String,
        private_key: String,
        public_key: String,
        keypair: [u8; 64],
        network: String,
        seed_hex: Option<String>,
    ) -> (r: Self)
        ensures
            r@.address_format == address_format,
            r@.public_address == public_address@,
            r@.private_key == private_key@,
            r@.public_key == public_key@,
            r@.keypair == keypair@,
            r@.network == network@,
            r@.seed_hex == (match seed_hex {
                Some(h) => Some(h@),
                None => None::<Seq<char>>,
            }),
    {
        SolanaWallet { address_format, public_address, private_key, public_key, keypair, network, seed_hex }
    }

    /// The text the wallet is shown as (see `wallet_text`).
    pub fn to_string(&self) -> (r: String)
        ensures
            r@ == wallet_text(self@),
    {
        let mut text = String::new();
        text.append("Solana Wallet\n");
        text.append(" Network: ");
        text.append(self.network.as_str());
        text.append("\n");
        text.append(" Private Key: ");
        text.append(self.private_key.as_str());
        text.append("\n");
        text.append(" Public Key: ");
        text.append(self.public_key.as_str());
        text.append("\n");
        text.append(" Address Format: ");
        let format = self.address_format.to_string();
        text.append(format.as_str());
        text.append("\n");
        text.append(" Public Address: ");
        text.append(self.public_address.as_str());
        text.append("\n");
        text
    }

    /// The address of a public key: its Base58 text.
    pub fn public_address_from_public_key(public_key: &Vec<u8>) -> (r: String)
        ensures
            r@ == base58_text(public_key@),
    {
        to_base58(public_key.as_slice())
    }

    /// The Base58 text of the key pair (private key, then the public key
    /// without its first byte).
    pub fn keypair_base58(private_key: &[u8; 32], public_key: &[u8; 33]) -> (r: String)
        ensures
            r@ == base58_text(keypair_bytes(private_key@, public_key@)),
    {
        let mut keypair: Vec<u8> = Vec::new();
        let mut i: usize = 0;
        while i < 32
            invariant
                i <= 32,
                keypair@ == private_key@.subrange(0, i as int),
            decreases 32 - i,
        {
            keypair.push(private_key[i]);
            i = i + 1;
            assert(keypair@ =~= private_key@.subrange(0, i as int));
        }
        let mut j: usize = 1;
        while j < 33
            invariant
                1 <= j <= 33,
                keypair@ == private_key@ + public_key@.subrange(1, j as int),
            decreases 33 - j,
        {
            keypair.push(public_key[j]);
            j = j + 1;
            assert(keypair@ =~= private_key@ + public_key@.subrange(1, j as int));
        }
        to_base58(keypair.as_slice())
    }
}

} // verus!
