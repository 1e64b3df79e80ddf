use vstd::prelude::*;

verus! {

/// An ASCII decimal digit.
pub open spec fn is_decimal_digit(c: char) -> bool {
    '0' <= c <= '9'
}

/// The number written by decimal digits, most significant first.
pub open spec fn decimal_value(s: Seq<char>) -> nat
    decreases s.len(),
{
    if s.len() == 0 {
        0
    } else {
        decimal_value(s.drop_last()) * 10 + ((s.last() as nat) - 48) as nat
    }
}

/// The value of an unsigned integer in decimal text: an optional '+' and
/// then at least one digit, nothing else (no white space).
pub open spec fn unsigned_text_value(s: Seq<char>) -> Option<nat> {
    let digits = if s.len() > 0 && s[0] == '+' {
        s.drop_first()
    } else {
        s
    };
    if digits.len() > 0 && forall|i: int| 0 <= i < digits.len() ==> is_decimal_digit(#[trigger] digits[i]) {
        Some(decimal_value(digits))
    } else {
        None
    }
}

/// `str::parse::<u64>` (`u64::from_str`): as its documentation states, an
/// optional '+' followed by decimal digits only, whose value fits in 64 bits;
/// anything else is an error, given as the text of the error. That text is
/// not stated.
#[verifier::external_body]
pub(crate) fn parse_u64(s: &str) -> (r: Result<u64, String>)
    ensures
        r is Ok <==> (unsigned_text_value(s@) is Some && unsigned_text_value(s@)->0 <= u64::MAX),
        r is Ok ==> r->Ok_0 == unsigned_text_value(s@)->0,
{
    match s.parse::<u64>() {
        Ok(v) => Ok(v),
        Err(e) => Err(e.to_string()),
    }
}

/// `str::parse::<u32>` (`u32::from_str`): as its documentation states, an
/// optional '+' followed by decimal digits only, whose value fits in 32 bits;
/// anything else is an error, given as the text of the error. That text is
/// not stated.
#[verifier::external_body]
pub(crate) fn parse_u32(s: &str) -> (r: Result<u32, String>)
    ensures
        r is Ok <==> (unsigned_text_value(s@) is Some && unsigned_text_value(s@)->0 <= u32::MAX),
        r is Ok ==> r->Ok_0 == unsigned_text_value(s@)->0,
{
    match s.parse::<u32>() {
        Ok(v) => Ok(v),
        Err(e) => Err(e.to_string()),
    }
}

} // verus!
