//! Credentials for HTTP basic authentication, from what the user typed.

use vstd::prelude::*;
use crate::text::trim_str;

verus! {

/// A username and password for HTTP basic authentication.
#[derive(Clone, Debug)]
pub struct BasicAuth {
    pub username: String,
    pub password: String,
}

/// The username and password taken from the typed input: the username line
/// is trimmed; a password typed visibly (read as a line) is trimmed too, one
/// typed hidden is kept as the hidden reader gave it.
fn ask_username_password(username_line: &str, password_input: &str, password_visible: bool) -> (r: (
    String,
    String,
))
    ensures
        r.0@ == crate::text::trim(username_line@),
        r.1@ == if password_visible {
            crate::text::trim(password_input@)
        } else {
            password_input@
        },
{
    let username = trim_str(username_line).to_owned();
    let password = if password_visible {
        trim_str(password_input).to_owned()
    } else {
        password_input.to_owned()
    };
    (username, password)
}

/// The credentials that the user typed: the username line trimmed, and the
/// password trimmed when it was typed visibly, as given when typed hidden.
pub fn ask_basic_auth(username_line: &str, password_input: &str, password_visible: bool) -> (r:
    BasicAuth)
    ensures
        r.username@ == crate::text::trim(username_line@),
        r.password@ == if password_visible {
            crate::text::trim(password_input@)
        } else {
            password_input@
        },
{
    let (username, password) = ask_username_password(username_line, password_input, password_visible);
    BasicAuth { username, password }
}

} // verus!
