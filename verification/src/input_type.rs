use vstd::prelude::*;
use crate::error::Error;
use crate::model::Output;
use crate::words::{second_word, text_equals, words};

verus! {

broadcast use vstd::string::to_string_from_display_ensures_for_str;

/// The kinds of inputs, by the script they spend.
#[derive(Debug, Clone, Copy, PartialEq, Eq, Structural)]
pub enum InputType {
    /// Pay to public key hash.
    P2pkh,
    /// Pay to script hash.
    P2sh,
    /// Pay to witness script hash.
    P2wsh,
    /// Pay to witness public key hash.
    P2wpkh,
    /// Pay to witness public key hash nested in pay to script hash.
    P2sh2Wpkh,
    /// Pay to witness script hash nested in pay to script hash.
    P2sh2Wsh,
}

/// The kind of input that spends an output, by the output's script kind and
/// (for "p2sh") the second word of its script in assembly notation; `None`
/// for a kind that is not handled.
pub open spec fn input_type_of(kind: Seq<char>, assembly: Seq<char>) -> Option<InputType> {
    if kind == "p2pkh"@ {
        Some(InputType::P2pkh)
    } else if kind == "p2sh"@ {
        if words(assembly).len() > 1 && words(assembly)[1] == "OP_PUSHBYTES_22"@ {
            Some(InputType::P2sh2Wpkh)
        } else if words(assembly).len() > 1 && words(assembly)[1] == "OP_PUSHBYTES_34"@ {
            Some(InputType::P2sh2Wsh)
        } else {
            Some(InputType::P2sh)
        }
    } else if kind == "v0_p2wsh"@ {
        Some(InputType::P2wsh)
    } else if kind == "v0_p2wpkh"@ {
        Some(InputType::P2wpkh)
    } else {
        None
    }
}

/// Whether inputs of the kind carry witness data.
pub open spec fn spec_is_segwit(t: InputType) -> bool {
    !(t is P2pkh || t is P2sh)
}

impl InputType {
    /// The kind of input that spends the given output.
    pub fn new(utxo_prevout: &Output) -> (r: Result<Self, Error>)
        ensures
            match input_type_of(utxo_prevout.scriptpubkey_type@, utxo_prevout.scriptpubkey_asm@) {
                Some(t) => r == Ok::<InputType, Error>(t),
                None => r matches Err(Error::CurrentlyNotSupported(_)),
            },
    {
        let kind = utxo_prevout.scriptpubkey_type.as_str();
        if text_equals(kind, "p2pkh") {
            Ok(InputType::P2pkh)
        } else if text_equals(kind, "p2sh") {
            let op_pushbytes = second_word(utxo_prevout.scriptpubkey_asm.as_str());
            if let Some(op) = op_pushbytes {
                if text_equals(op, "OP_PUSHBYTES_22") {
                    return Ok(InputType::P2sh2Wpkh);
                } else if text_equals(op, "OP_PUSHBYTES_34") {
                    return Ok(InputType::P2sh2Wsh);
                } else {
                    return Ok(InputType::P2sh);
                }
            }
            Ok(InputType::P2sh)
        } else if text_equals(kind, "v0_p2wsh") {
            Ok(InputType::P2wsh)
        } else if text_equals(kind, "v0_p2wpkh") {
            Ok(InputType::P2wpkh)
        } else {
            Err(
                Error::CurrentlyNotSupported(
                    "Unknown scriptpubkey_type, not currently handled".to_string(),
                ),
            )
        }
    }

    /// Whether inputs of this kind carry witness data.
    pub fn is_segwit(&self) -> (r: bool)
        ensures
            r == spec_is_segwit(*self),
    {
        match self {
            InputType::P2pkh | InputType::P2sh => false,
            InputType::P2sh2Wpkh | InputType::P2sh2Wsh | InputType::P2wsh | InputType::P2wpkh => true,
        }
    }
}

} // verus!
