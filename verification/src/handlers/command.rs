//! A command that a module registers.
use crate::proto::Command;
use crate::text::{decimal, u64_text};
use vstd::prelude::*;

verus! {

/// The line that is logged, if the module is authenticated.
pub fn handle(authenticated: bool, module_name: &str, command: &Command) -> (r: Option<String>)
    ensures
        r is Some == authenticated,
        r matches Some(t) ==> t@ == module_name@ + " registered "@ + decimal(command@.command_flags.len())
            + " commands"@,
{
    if !authenticated {
        return None;
    }
    let mut t = module_name.to_owned();
    t.append(" registered ");
    t.append(u64_text(command.command_flags.len() as u64).as_str());
    t.append(" commands");
    Some(t)
}

} // verus!
