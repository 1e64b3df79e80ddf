use vstd::prelude::*;
use crate::error::HexError;
use vstd::utf8::is_ascii_chars;

verus! {

/// The lower-case hexadecimal digit of a value below sixteen.
pub open spec fn hex_digit(n: int) -> char {
    if n < 10 {
        (n + 48) as char
    } else {
        (n + 87) as char
    }
}

/// Lower-case hexadecimal text of bytes: two digits per byte, high half first.
pub open spec fn hex_lower(b: Seq<u8>) -> Seq<char> {
    Seq::new(
        2 * b.len(),
        |i: int|
            if i % 2 == 0 {
                hex_digit((b[i / 2] / 16) as int)
            } else {
                hex_digit((b[i / 2] % 16) as int)
            },
    )
}

/// Hexadecimal text is ASCII.
pub proof fn lemma_hex_lower_ascii(b: Seq<u8>)
    ensures
        is_ascii_chars(hex_lower(b)),
        hex_lower(b).len() == 2 * b.len(),
{
    assert forall|i: int| 0 <= i < hex_lower(b).len() implies '\0' <= #[trigger] hex_lower(b)[i] <= '\u{7f}' by {
        let n: int = if i % 2 == 0 { (b[i / 2] / 16) as int } else { (b[i / 2] % 16) as int };
        assert(0 <= n < 16);
        assert(hex_lower(b)[i] == hex_digit(n));
    }
}

/// The value of an ASCII hexadecimal digit (either case), if the byte is one.
pub open spec fn hex_value(c: u8) -> Option<u8> {
    if 0x30 <= c <= 0x39 {
        Some((c - 0x30) as u8)
    } else if 0x41 <= c <= 0x46 {
        Some((c - 0x41 + 10) as u8)
    } else if 0x61 <= c <= 0x66 {
        Some((c - 0x61 + 10) as u8)
    } else {
        None
    }
}

/// `i` is the first position of a byte that is not a hexadecimal digit.
pub open spec fn is_first_non_hex(b: Seq<u8>, i: int) -> bool {
    &&& 0 <= i < b.len()
    &&& hex_value(b[i]) is None
    &&& forall|j: int| 0 <= j < i ==> hex_value(b[j]) is Some
}

/// Decoding hexadecimal text given as bytes: an odd length is refused first,
/// then the first byte that is not a digit; otherwise each pair of digits
/// gives one byte, high half first.
pub open spec fn hex_decoding(b: Seq<u8>) -> Result<Seq<u8>, HexError> {
    if b.len() % 2 != 0 {
        Err(HexError::OddLength)
    } else if exists|i: int| is_first_non_hex(b, i) {
        let i = choose|i: int| is_first_non_hex(b, i);
        Err(HexError::InvalidHexCharacter { c: b[i] as char, index: i as usize })
    } else {
        Ok(
            Seq::new(
                b.len() / 2,
                |k: int| (hex_value(b[2 * k])->0 * 16 + hex_value(b[2 * k + 1])->0) as u8,
            ),
        )
    }
}

/// `hex::encode`: the lower-case hexadecimal text of the bytes, two digits per
/// byte from the table "0123456789abcdef", high half first.
#[verifier::external_body]
pub(crate) fn hex_encode(data: &[u8]) -> (r: String)
    ensures
        r@ == hex_lower(data@),
{
    hex::encode(data)
}

/// `hex::decode`: refuses an odd number of bytes, then the first byte that is
/// not a hexadecimal digit (reporting it and its index), and otherwise turns
/// each pair of digits into one byte. Its error enum is mapped variant by
/// variant onto `HexError`.
#[verifier::external_body]
pub(crate) fn hex_decode(data: &[u8]) -> (r: Result<Vec<u8>, HexError>)
    ensures
        match hex_decoding(data@) {
            Ok(bytes) => r matches Ok(v) && v@ == bytes,
            Err(e) => r == Err::<Vec<u8>, HexError>(e),
        },
{
    match hex::decode(data) {
        Ok(v) => Ok(v),
        Err(hex::FromHexError::OddLength) => Err(HexError::OddLength),
        Err(hex::FromHexError::InvalidHexCharacter { c, index }) => Err(
            HexError::InvalidHexCharacter { c, index },
        ),
        Err(hex::FromHexError::InvalidStringLength) => Err(HexError::InvalidStringLength),
    }
}

/// The double SHA-256 digest of a byte sequence.
pub uninterp spec fn sha256d_digest(data: Seq<u8>) -> Seq<u8>;

/// `bitcoin_hashes::sha256d::Hash::hash`: SHA-256 applied twice; the contract
/// says only that the 32 bytes returned (in the hash's internal order, as
/// `AsRef<[u8]>` gives them) are the named digest of the input.
#[verifier::external_body]
pub(crate) fn sha256d_hash(data: &[u8]) -> (r: Vec<u8>)
    ensures
        r@ == sha256d_digest(data@),
        r@.len() == 32,
{
    let h = <bitcoin_hashes::sha256d::Hash as bitcoin_hashes::Hash>::hash(data);
    h[..].to_vec()
}

} // verus!
