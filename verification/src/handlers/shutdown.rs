//! A module that shuts down.
use crate::proto::Shutdown;
use vstd::prelude::*;

verus! {

/// The line that is logged, if the module is authenticated; and that its connection ends,
/// which it does in any case.
pub fn handle(authenticated: bool, module_name: &str, shutdown: &Shutdown) -> (r: (
    Option<String>,
    bool,
))
    ensures
        r.0 is Some == authenticated,
        r.0 matches Some(t) ==> t@ == module_name@ + " shut down: "@ + shutdown@.reason,
        r.1,
{
    if !authenticated {
        return (None, true);
    }
    let mut t = module_name.to_owned();
    t.append(" shut down: ");
    t.append(shutdown.reason.as_str());
    (Some(t), true)
}

} // verus!
