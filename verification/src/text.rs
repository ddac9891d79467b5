//! Decimal rendering of amounts, as it appears in response attributes and in
//! encoded query answers.

use vstd::prelude::*;
use cosmwasm_std::{to_json_binary, StdError, Uint128};

verus! {

/// The character that writes the digit `d`, for `d` below ten.
pub open spec fn digit_char(d: nat) -> char {
    seq!['0', '1', '2', '3', '4', '5', '6', '7', '8', '9'][d as int]
}

/// Base-ten notation of `n`: no sign, no leading zeros, `"0"` for zero.
pub open spec fn decimal(n: nat) -> Seq<char>
    decreases n,
{
    if n < 10 {
        seq![digit_char(n)]
    } else {
        decimal(n / 10).push(digit_char(n % 10))
    }
}

/// The JSON string literal whose content is the ASCII text `s`: the bytes of
/// `s` between two double quotes.
pub open spec fn json_quoted(s: Seq<char>) -> Seq<u8> {
    seq![0x22u8] + Seq::new(s.len(), |i: int| s[i] as u8) + seq![0x22u8]
}

/// Calls `Display` of `cosmwasm_std::Uint128` through `to_string`. That impl
/// forwards to the `Display` of the inner `u128`, so the text is the plain
/// base-ten notation of the value; this is believed, not proved.
#[verifier::external_body]
pub(crate) fn uint128_to_string(value: u128) -> (s: String)
    ensures
        s@ == decimal(value as nat),
{
    Uint128::new(value).to_string()
}

/// Calls `cosmwasm_std::to_json_binary` on a `Uint128`. `Uint128` serialises
/// itself as the string of its base-ten notation, and the encoder writes a
/// string between two double quotes, escaping nothing in a run of digits,
/// and has no failure on that path; so the call is believed to succeed with
/// exactly those bytes.
#[verifier::external_body]
pub(crate) fn uint128_to_json(value: u128) -> (r: Result<Vec<u8>, StdError>)
    ensures
        r is Ok,
        r matches Ok(bytes) ==> bytes@ == json_quoted(decimal(value as nat)),
{
    match to_json_binary(&Uint128::new(value)) {
        Ok(binary) => Ok(binary.0),
        Err(e) => Err(e),
    }
}

} // verus!
