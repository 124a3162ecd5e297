use vstd::prelude::*;
use crate::text::{chars_of, contains, contains_chars};

verus! {

/// Why logging in did not succeed.
#[derive(Debug, Clone, Copy, PartialEq, Eq, Structural)]
pub enum AuthError {
    /// The service answered with its account-lookup failure message.
    InvalidCredentials,
    /// The request could not be made or its answer could not be read.
    Transport,
}

/// The sentence the service puts in its login page when the account lookup fails.
pub const FAILURE_PHRASE: &'static str = "Sorry, there was a problem looking up your Overcast account";

/// Address of the login form.
pub const LOGIN_URL: &'static str = "https://overcast.fm/login";

/// Address of the extended OPML export.
pub const EXPORT_URL: &'static str = "https://overcast.fm/account/export_opml/extended";

/// Whether a login response body reports that the credentials were refused.
pub fn indicates_auth_failure(body: &str) -> (r: bool)
    ensures
        r == contains(body@, FAILURE_PHRASE@),
{
    let hay = chars_of(body);
    let needle = chars_of(FAILURE_PHRASE);
    contains_chars(&hay, &needle)
}

/// The outcome of a login attempt whose response body was read.
pub fn auth_outcome(body: &str) -> (r: Result<(), AuthError>)
    ensures
        r == (if contains(body@, FAILURE_PHRASE@) {
            Err::<(), AuthError>(AuthError::InvalidCredentials)
        } else {
            Ok::<(), AuthError>(())
        }),
{
    if indicates_auth_failure(body) {
        Err(AuthError::InvalidCredentials)
    } else {
        Ok(())
    }
}

/// The fields of the login form, as name and value pairs.
pub fn login_form(username: &str, password: &str) -> (r: Vec<(String, String)>)
    ensures
        r@.len() == 2,
        r@[0].0@ == "email"@,
        r@[0].1@ == username@,
        r@[1].0@ == "password"@,
        r@[1].1@ == password@,
{
    let mut form: Vec<(String, String)> = Vec::new();
    form.push((String::from_str("email"), String::from_str(username)));
    form.push((String::from_str("password"), String::from_str(password)));
    form
}

} // verus!
