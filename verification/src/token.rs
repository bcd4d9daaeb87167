use vstd::prelude::*;
use crate::credential::IdentityError;

verus! {

/// Lifetime of a token whose response gives no expiry, in seconds.
pub const DEFAULT_TOKEN_LIFETIME_SECS: u64 = 3600;

/// `x` read as a signed 64-bit integer (two's complement).
pub open spec fn as_signed(x: u64) -> int {
    if x <= i64::MAX {
        x as int
    } else {
        x - 0x1_0000_0000_0000_0000
    }
}

/// The lifetime of an access token, in seconds, from the `expires_in` of the token
/// response: its value, or an hour when it is absent, read as a signed 64-bit count.
pub fn token_lifetime_secs(expires_in_secs: Option<u64>) -> (r: i64)
    ensures
        r == as_signed(
            match expires_in_secs {
                Some(s) => s,
                None => DEFAULT_TOKEN_LIFETIME_SECS,
            },
        ),
{
    let secs = match expires_in_secs {
        Some(s) => s,
        None => DEFAULT_TOKEN_LIFETIME_SECS,
    };
    if secs <= i64::MAX as u64 {
        secs as i64
    } else {
        let below = u64::MAX - secs;
        -(below as i64) - 1
    }
}

/// The authorization code to exchange for a token, or the error when the browser flow
/// gave none.
pub fn authorization_code_or_error(code: Option<String>) -> (r: Result<String, IdentityError>)
    ensures
        match code {
            Some(c) => r == Ok::<String, IdentityError>(c),
            None => r == Err::<String, IdentityError>(IdentityError::AuthorizationCodeMissing),
        },
{
    match code {
        Some(c) => Ok(c),
        None => Err(IdentityError::AuthorizationCodeMissing),
    }
}

} // verus!
