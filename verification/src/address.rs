use vstd::prelude::*;
use crate::error::Error;
use crate::hex_text::{hex_encode, hex_lower};
use crate::model::Output;

verus! {

broadcast use vstd::string::to_string_from_display_ensures_for_str;

/// The kinds of Bitcoin addresses.
#[derive(Debug, Clone, Copy, PartialEq, Eq, Structural)]
pub enum AddressType {
    /// Pay to public key hash.
    P2pkh,
    /// Pay to script hash.
    P2sh,
    /// Pay to witness public key hash.
    P2wpkh,
    /// Pay to witness script hash.
    P2wsh,
    /// Pay to taproot.
    P2tr,
    /// A kind not listed here.
    Other,
}

/// What is read of a Bitcoin address: its text, its kind (if it has a
/// standard one), and its output script in assembly notation and as bytes.
#[derive(Debug, Clone)]
pub struct AddressInfo {
    /// The address as text.
    pub address: String,
    /// The kind of the address, if standard.
    pub address_type: Option<AddressType>,
    /// The output script in assembly notation.
    pub script_pubkey_asm: String,
    /// The output script.
    pub script_pubkey: Vec<u8>,
}

/// The script kind recorded for an address kind, if it is handled.
pub open spec fn script_kind_text(t: AddressType) -> Option<Seq<char>> {
    match t {
        AddressType::P2pkh => Some("p2pkh"@),
        AddressType::P2sh => Some("p2sh"@),
        AddressType::P2wpkh => Some("v0_p2wpkh"@),
        AddressType::P2wsh => Some("v0_p2wsh"@),
        _ => None,
    }
}

impl Output {
    /// Records the address the output pays to, and for a handled kind of
    /// address the script kind, the script in assembly notation, and the
    /// script as hexadecimal text. The address is recorded even when its
    /// kind is refused with `CurrentlyNotSupported`.
    pub fn set_scriptpubkey_info(&mut self, address_info: AddressInfo) -> (r: Result<(), Error>)
        requires
            address_info.address_type is Some,
        ensures
            final(self).scriptpubkey_address@ == address_info.address@,
            final(self).pubkeyhash@ == old(self).pubkeyhash@,
            final(self).value == old(self).value,
            match script_kind_text(address_info.address_type->0) {
                Some(kind) => {
                    &&& r is Ok
                    &&& final(self).scriptpubkey_type@ == kind
                    &&& final(self).scriptpubkey_asm@ == address_info.script_pubkey_asm@
                    &&& final(self).scriptpubkey@ == hex_lower(address_info.script_pubkey@)
                },
                None => {
                    &&& r matches Err(Error::CurrentlyNotSupported(_))
                    &&& final(self).scriptpubkey_type@ == old(self).scriptpubkey_type@
                    &&& final(self).scriptpubkey_asm@ == old(self).scriptpubkey_asm@
                    &&& final(self).scriptpubkey@ == old(self).scriptpubkey@
                },
            },
    {
        self.scriptpubkey_address = address_info.address;
        let address_type = address_info.address_type.unwrap();
        match address_type {
            AddressType::P2pkh => self.scriptpubkey_type = "p2pkh".to_string(),
            AddressType::P2sh => self.scriptpubkey_type = "p2sh".to_string(),
            AddressType::P2wpkh => self.scriptpubkey_type = "v0_p2wpkh".to_string(),
            AddressType::P2wsh => self.scriptpubkey_type = "v0_p2wsh".to_string(),
            _ => {
                return Err(
                    Error::CurrentlyNotSupported(
                        "Currently not implemented setting scriptpubkey for this address type".to_string(),
                    ),
                );
            },
        }
        self.scriptpubkey_asm = address_info.script_pubkey_asm;
        self.scriptpubkey = hex_encode(address_info.script_pubkey.as_slice());
        Ok(())
    }
}

} // verus!
