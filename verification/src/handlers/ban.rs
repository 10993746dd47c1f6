//! A ban.
use crate::proto::LogLine;
use vstd::prelude::*;

verus! {

/// The line that is logged, if the module is authenticated.
pub fn handle(authenticated: bool, module_name: &str, log: &LogLine) -> (r: Option<String>)
    ensures
        r is Some == authenticated,
        r matches Some(t) ==> t@ == "["@ + module_name@ + "] "@ + log@.log,
{
    if !authenticated {
        return None;
    }
    let mut t = "[".to_owned();
    t.append(module_name);
    t.append("] ");
    t.append(log.log.as_str());
    Some(t)
}

} // verus!
