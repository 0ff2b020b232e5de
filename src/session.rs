use vstd::prelude::*;
use vstd::string::*;
use crate::errors::AuthError;

verus! {

/// The name under which the session token is stored.
pub open spec fn token_key_spec() -> Seq<char> {
    "web_token"@
}

/// The name under which the session token is stored.
pub fn token_key() -> (r: String)
    ensures
        r@ == token_key_spec(),
{
    String::from_str("web_token")
}

/// What one poll of a QR login reports.
#[derive(Debug, Clone, Copy, PartialEq, Eq)]
pub enum LoginPoll {
    /// The code was scanned and confirmed: store the token.
    Confirmed,
    /// Not scanned, or scanned and not confirmed yet: poll again.
    Waiting,
    /// The code timed out.
    Expired,
    /// Any other code: the login failed.
    Rejected(i64),
}

/// Reads the status code of one poll of a QR login: `0` confirmed, `-4`
/// not scanned yet, `-5` not confirmed yet, `-2` timed out.
pub fn login_poll_step(code: i64) -> (r: LoginPoll)
    ensures
        code == 0 ==> r == LoginPoll::Confirmed,
        (code == -4 || code == -5) ==> r == LoginPoll::Waiting,
        code == -2 ==> r == LoginPoll::Expired,
        (code != 0 && code != -4 && code != -5 && code != -2) ==> r == LoginPoll::Rejected(code),
{
    if code == 0 {
        LoginPoll::Confirmed
    } else if code == -4 || code == -5 {
        LoginPoll::Waiting
    } else if code == -2 {
        LoginPoll::Expired
    } else {
        LoginPoll::Rejected(code)
    }
}

/// An authenticated operation needs a stored token: an empty one means
/// the operator has to log in first.
pub fn check_token(stored: &str) -> (r: Result<(), AuthError>)
    ensures
        r is Err <==> stored@.len() == 0,
        r is Err ==> r == Err::<(), AuthError>(AuthError::MissingToken),
{
    if stored.is_empty() {
        Err(AuthError::MissingToken)
    } else {
        Ok(())
    }
}

} // verus!
