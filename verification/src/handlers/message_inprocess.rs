//! A message that an in-process module is done with.
use crate::config::{
    broadcast_stage, by_priority, entry_at, stage_entries, Config, ModuleEntry, ModuleEntryView,
};
use crate::proto::{
    clone_bytes, clone_opt, views, Container, ContainerView, MessageInProcess,
    MessageInProcessView, MessagePostProcess, MessagePostProcessView, Payload, PayloadView,
};
use crate::text::same;
use vstd::prelude::*;

verus! {

/// The place behind a module in a list; the first where it is not in it.
pub open spec fn place_after(list: Seq<ModuleEntryView>, name: Seq<char>) -> nat {
    if entry_at(list, name) < list.len() {
        entry_at(list, name) + 1
    } else {
        0
    }
}

/// A container with a message for the post-process modules.
pub open spec fn finished(c: ContainerView, m: MessageInProcessView) -> ContainerView {
    ContainerView {
        payload: Some(
            PayloadView::MessagePostProcess(
                MessagePostProcessView {
                    message_uuid7: m.message_uuid7,
                    raw_message: m.raw_message,
                    processed_message: Seq::empty(),
                    audio: m.audio,
                    audio_type: m.audio_type,
                },
            ),
        ),
        ..c
    }
}

fn find_after(list: &Vec<ModuleEntry>, name: &str) -> (r: usize)
    ensures
        r == place_after(views(list@), name@),
{
    let ghost all = views(list@);
    let mut i: usize = 0;
    assert(all.skip(0) =~= all);
    while i < list.len()
        invariant
            i <= list@.len(),
            all == views(list@),
            entry_at(all, name@) == i + entry_at(all.skip(i as int), name@),
        decreases list@.len() - i,
    {
        assert(all.skip(i as int)[0] == list@[i as int]@);
        if same(list[i].name.as_str(), name) {
            return i + 1;
        }
        assert(all.skip(i as int).drop_first() =~= all.skip(i + 1));
        i = i + 1;
    }
    assert(entry_at(all.skip(i as int), name@) == 0);
    0
}

/// The place of the next in-process module, and what the post-process modules are sent.
/// What a module that is not authenticated sends is refused.
pub fn handle(
    authenticated: bool,
    module_name: &str,
    container: &Container,
    message: &MessageInProcess,
    config: &Config,
) -> (r: Result<(usize, Container), &'static str>)
    ensures
        r is Ok == authenticated,
        r matches Ok(p) ==> p.0 == place_after(
            by_priority(stage_entries(config@, "inprocess"@)),
            module_name@,
        ) && p.1@ == finished(container@, message@),
        r matches Err(e) ==> e@ == "Not authenticated"@,
{
    if !authenticated {
        return Err("Not authenticated");
    }
    let next = find_after(&broadcast_stage(config, "inprocess"), module_name);
    let mut out = container.clone();
    out.payload = Some(
        Payload::MessagePostProcess(
            MessagePostProcess {
                message_uuid7: message.message_uuid7.clone(),
                raw_message: clone_opt(&message.raw_message),
                processed_message: String::new(),
                audio: clone_bytes(&message.audio),
                audio_type: message.audio_type.clone(),
            },
        ),
    );
    Ok((next, out))
}

} // verus!
