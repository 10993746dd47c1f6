//! A change of a user's style.
use crate::proto::UserData;
use vstd::prelude::*;

verus! {

/// The line that is logged, if the module is authenticated.
pub fn handle(authenticated: bool, user: &UserData) -> (r: Option<String>)
    ensures
        r is Some == authenticated,
        r matches Some(t) ==> t@ == "User styling data update: "@ + user@.username,
{
    if !authenticated {
        return None;
    }
    let mut t = "User styling data update: ".to_owned();
    t.append(user.username.as_str());
    Some(t)
}

} // verus!
