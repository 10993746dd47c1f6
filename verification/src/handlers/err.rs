//! An error that a module reports.
use crate::proto::ErrorLine;
use vstd::prelude::*;

verus! {

/// The line that is logged, if the module is authenticated.
pub fn handle(authenticated: bool, module_name: &str, error: &ErrorLine) -> (r: Option<String>)
    ensures
        r is Some == authenticated,
        r matches Some(t) ==> t@ == "["@ + module_name@ + "] ERROR: "@ + error@.log,
{
    if !authenticated {
        return None;
    }
    let mut t = "[".to_owned();
    t.append(module_name);
    t.append("] ERROR: ");
    t.append(error.log.as_str());
    Some(t)
}

} // verus!
