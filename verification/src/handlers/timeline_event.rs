//! An event for the timeline.
use crate::config::{broadcast_stage, by_priority, stage_entries, Config, ModuleEntry};
use crate::proto::{views, TimelineEvent};
use vstd::prelude::*;

verus! {

/// The line that is logged and the modules that the event goes to, if the module is
/// authenticated: the timeline is kept by a post-process module like another.
pub fn handle(authenticated: bool, event: &TimelineEvent, config: &Config) -> (r: Option<
    (String, Vec<ModuleEntry>),
>)
    ensures
        r is Some == authenticated,
        r matches Some(p) ==> p.0@ == "Timeline: "@ + event@.i && views(p.1@) == by_priority(
            stage_entries(config@, "postprocess"@),
        ),
{
    if !authenticated {
        return None;
    }
    let mut t = "Timeline: ".to_owned();
    t.append(event.i.as_str());
    Some((t, broadcast_stage(config, "postprocess")))
}

} // verus!
