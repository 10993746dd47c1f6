//! A message that is through.
use crate::config::{broadcast_stage, by_priority, stage_entries, Config, ModuleEntry};
use crate::proto::{views, MessagePostProcess, MessagePostProcessView};
use vstd::prelude::*;

verus! {

/// Who a message is from; nobody where it carries no chat message.
pub open spec fn sender(m: MessagePostProcessView) -> Seq<char> {
    match m.raw_message {
        Some(c) => c.user_uuid7,
        None => Seq::empty(),
    }
}

/// The line that is logged and the modules that the message goes to.
pub fn handle(message: &MessagePostProcess, config: &Config) -> (r: (String, Vec<ModuleEntry>))
    ensures
        r.0@ == "Message finalized from "@ + sender(message@),
        views(r.1@) == by_priority(stage_entries(config@, "postprocess"@)),
{
    let mut t = "Message finalized from ".to_owned();
    match &message.raw_message {
        Some(c) => {
            t.append(c.user_uuid7.as_str());
        },
        None => {
            t.append(String::new().as_str());
        },
    }
    (t, broadcast_stage(config, "postprocess"))
}

} // verus!
