use vstd::prelude::*;
use crate::error::Error;
use crate::numbers::{parse_u64, unsigned_text_value};

verus! {

broadcast use vstd::string::to_string_from_display_ensures_for_str;

/// The block height in the body of an answer to `/blocks/tip/height`: the
/// body as a decimal number, or `FromStr` with the parser's message.
pub fn parse_block_count(body: &str) -> (r: Result<u64, Error>)
    ensures
        r is Ok <==> (unsigned_text_value(body@) is Some && unsigned_text_value(body@)->0 <= u64::MAX),
        r is Ok ==> r->Ok_0 == unsigned_text_value(body@)->0,
        r is Err ==> r matches Err(Error::FromStr(_)),
{
    match parse_u64(body) {
        Ok(block_count) => Ok(block_count),
        Err(message) => Err(Error::FromStr(message)),
    }
}

/// An HTTP status code in 400..=499.
pub open spec fn is_client_error(status: u16) -> bool {
    400 <= status <= 499
}

/// An HTTP status code in 500..=599.
pub open spec fn is_server_error(status: u16) -> bool {
    500 <= status <= 599
}

/// The result of broadcasting a transaction, from the HTTP status of the
/// answer and its body: the body when the status is neither a client nor a
/// server error, otherwise `BroadcastTransaction` with the body.
pub fn broadcast_outcome(status: u16, content: String) -> (r: Result<String, Error>)
    ensures
        !is_client_error(status) && !is_server_error(status) ==> (r matches Ok(s) && s@ == content@),
        is_client_error(status) || is_server_error(status) ==> (r matches Err(Error::BroadcastTransaction(s)) && s@ == content@),
{
    let client_error = 400 <= status && status <= 499;
    let server_error = 500 <= status && status <= 599;
    if !client_error && !server_error {
        Ok(content)
    } else {
        Err(Error::BroadcastTransaction(content))
    }
}

/// The raw transaction hex: the body of the answer to `/tx/{txid}/raw`,
/// as it came.
pub fn raw_transaction_hex_from_body(body: &str) -> (r: String)
    ensures
        r@ == body@,
{
    body.to_string()
}

} // verus!
