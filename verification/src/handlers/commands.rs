//! A list of commands that a module registers.
use crate::proto::Commands;
use crate::text::{decimal, u64_text};
use vstd::prelude::*;

verus! {

/// The line that is logged, if the module is authenticated.
pub fn handle(authenticated: bool, module_name: &str, commands: &Commands) -> (r: Option<String>)
    ensures
        r is Some == authenticated,
        r matches Some(t) ==> t@ == module_name@ + " registered "@ + decimal(commands@.commands.len())
            + " commands"@,
{
    if !authenticated {
        return None;
    }
    let mut t = module_name.to_owned();
    t.append(" registered ");
    t.append(u64_text(commands.commands.len() as u64).as_str());
    t.append(" commands");
    Some(t)
}

} // verus!
