//! Who may do what: the roles that a module's name stands for.
//!
//! A name is bound to the session's token, so a check of the name is sound.
use crate::proto::ProcessPosition;
use crate::text::same;
use vstd::prelude::*;

verus! {

/// The operator's control surface: the TUI or a detached window of it.
pub open spec fn control_surface(name: Seq<char>) -> bool {
    name == "cockatiel-tui"@ || name == "cockatiel-tui-child"@
}

/// The compliance test runner.
pub open spec fn test_runner(name: Seq<char>) -> bool {
    name == "cockatiel-test-runner"@
}

/// Modules that connect without being asked about: the control surface, which would wait
/// for a question that it has to show itself, the test runner and the audit viewer.
pub open spec fn always_trusted(name: Seq<char>) -> bool {
    control_surface(name) || test_runner(name) || name == "cockatiel-audit-viewer"@
}

/// Modules that see the credentials of others: the control surface, and the terminal chat
/// for its logins.
pub open spec fn reads_credentials(name: Seq<char>) -> bool {
    control_surface(name) || name == "term-chat"@
}

/// Whether a module connects without being asked about.
pub fn is_always_trusted(name: &str) -> (r: bool)
    ensures
        r == always_trusted(name@),
{
    same(name, "cockatiel-tui") || same(name, "cockatiel-tui-child") || same(
        name,
        "cockatiel-test-runner",
    ) || same(name, "cockatiel-audit-viewer")
}

/// Whether a module is the operator's control surface.
pub fn is_control_surface(name: &str) -> (r: bool)
    ensures
        r == control_surface(name@),
{
    same(name, "cockatiel-tui") || same(name, "cockatiel-tui-child")
}

/// Whether a module sees the credentials of others.
pub fn may_read_other_credentials(name: &str) -> (r: bool)
    ensures
        r == reads_credentials(name@),
{
    is_control_surface(name) || same(name, "term-chat")
}

/// Whether a module may archive test results.
pub fn is_test_runner(name: &str) -> (r: bool)
    ensures
        r == test_runner(name@),
{
    same(name, "cockatiel-test-runner")
}

/// The role that a user database request is made with: on the operator's own machine the
/// owner's, else the one that was given.
pub open spec fn actor_perm(peer_loopback: bool, actor_role: Seq<char>) -> Seq<char> {
    if peer_loopback {
        "owner"@
    } else {
        actor_role
    }
}

/// The role that a user database request is made with.
pub fn userdb_actor_perm(peer_loopback: bool, actor_role: &str) -> (r: String)
    ensures
        r@ == actor_perm(peer_loopback, actor_role@),
{
    if peer_loopback {
        "owner".to_owned()
    } else {
        actor_role.to_owned()
    }
}

/// Where a user can set up a module or read about it.
pub open spec fn link_for(module_name: Seq<char>) -> Seq<char> {
    if module_name == "twitch-adapter"@ {
        "https://dev.twitch.tv/console/apps"@
    } else if module_name == "kick-adapter"@ {
        "https://kick.com/settings/developer"@
    } else if module_name == "youtube-adapter"@ {
        "https://console.cloud.google.com/apis/credentials"@
    } else {
        "https://github.com/vulbyte/cockatiel"@
    }
}

/// Where a user can set up a module or read about it.
pub fn prompt_link_for(module_name: &str) -> (r: String)
    ensures
        r@ == link_for(module_name@),
{
    if same(module_name, "twitch-adapter") {
        "https://dev.twitch.tv/console/apps".to_owned()
    } else if same(module_name, "kick-adapter") {
        "https://kick.com/settings/developer".to_owned()
    } else if same(module_name, "youtube-adapter") {
        "https://console.cloud.google.com/apis/credentials".to_owned()
    } else {
        "https://github.com/vulbyte/cockatiel".to_owned()
    }
}

/// The name of a position in the configuration; a module without one brings messages in.
pub open spec fn position_name(pos: ProcessPosition) -> Seq<char> {
    match pos {
        ProcessPosition::Preprocess => "preprocess"@,
        ProcessPosition::Inprocess => "inprocess"@,
        ProcessPosition::Postprocess => "postprocess"@,
        _ => "input"@,
    }
}

/// The name of a position in the configuration.
pub fn process_position_to_string(pos: ProcessPosition) -> (r: String)
    ensures
        r@ == position_name(pos),
{
    match pos {
        ProcessPosition::Preprocess => "preprocess".to_owned(),
        ProcessPosition::Inprocess => "inprocess".to_owned(),
        ProcessPosition::Postprocess => "postprocess".to_owned(),
        _ => "input".to_owned(),
    }
}

/// Whoever may see credentials may connect unasked, or is the terminal chat; the test
/// runner and the audit viewer see none.
pub proof fn law_trust_does_not_open_credentials(name: Seq<char>)
    ensures
        control_surface(name) ==> always_trusted(name) && reads_credentials(name),
        test_runner(name) ==> !reads_credentials(name),
        name == "cockatiel-audit-viewer"@ ==> !reads_credentials(name),
{
    reveal_strlit("cockatiel-tui");
    reveal_strlit("cockatiel-tui-child");
    reveal_strlit("cockatiel-test-runner");
    reveal_strlit("cockatiel-audit-viewer");
    reveal_strlit("term-chat");
    assert("cockatiel-test-runner"@.len() == 21);
    assert("cockatiel-audit-viewer"@.len() == 22);
    assert("cockatiel-tui"@.len() == 13);
    assert("cockatiel-tui-child"@.len() == 19);
    assert("term-chat"@.len() == 9);
}

} // verus!
