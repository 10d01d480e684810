//! Data contract with the authentication collaborator.
//!
//! The ledger treats cashier identity as opaque: it snapshots the
//! `(id, name)` pair the collaborator supplies into each order.  The
//! credential lookup itself is storage work done outside; what can be
//! stated is how its outcome maps to the result handed to the caller.

use vstd::prelude::*;

verus! {

/// One user as the authentication store holds it.
#[derive(Clone, Debug)]
pub struct UserInfo {
    pub id: String,
    pub name: String,
    pub role: String,
}

/// Outcome of a login attempt: the matched user, or a message saying
/// the credentials matched nobody.
#[derive(Clone, Debug)]
pub struct LoginResult {
    pub success: bool,
    pub user: Option<UserInfo>,
    pub error: Option<String>,
}

/// Turns the outcome of a credential lookup into a login result: a
/// matched user means success and is passed through unchanged; no
/// match means failure with a message and no user.
pub fn login_result(user: Option<UserInfo>) -> (r: LoginResult)
    ensures
        r.success == user is Some,
        r.user == user,
        user is Some ==> r.error is None,
        user is None ==> (r.error matches Some(m) && m@ == "invalid employee id or password"@),
{
    match user {
        Some(u) => LoginResult { success: true, user: Some(u), error: None },
        None => LoginResult {
            success: false,
            user: None,
            error: Some("invalid employee id or password".to_owned()),
        },
    }
}

} // verus!
