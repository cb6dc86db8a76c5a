use vstd::prelude::*;
use crate::types::pid::PID;

verus! {

/// A game server account (apart from any platform account).
#[derive(Debug, Clone)]
pub struct Account {
    pub pid: PID,
    pub username: String,
    pub password: String,
    pub requires_token_auth: bool,
}

impl Account {
    /// An account with the given fields.
    pub fn new(pid: PID, username: &str, password: &str, requires_token_auth: bool) -> (a: Self)
        ensures
            a.pid == pid,
            a.username@ == username@,
            a.password@ == password@,
            a.requires_token_auth == requires_token_auth,
    {
        Account {
            pid,
            username: String::from_str(username),
            password: String::from_str(password),
            requires_token_auth,
        }
    }
}

} // verus!
