//! A message that comes in.
use crate::config::{broadcast_stage, by_priority, stage_entries, Config, ModuleEntry};
use crate::proto::{
    clone_opt, views, Container, ContainerView, MessagePostProcess, MessagePostProcessView,
    MessagePreProcess, MessagePreProcessView, Payload, PayloadView,
};
use vstd::prelude::*;

verus! {

/// A container with a message that nothing was made of.
pub open spec fn unprocessed(c: ContainerView, m: MessagePreProcessView) -> ContainerView {
    ContainerView {
        payload: Some(
            PayloadView::MessagePostProcess(
                MessagePostProcessView {
                    message_uuid7: m.message_uuid7,
                    raw_message: m.raw_message,
                    processed_message: Seq::empty(),
                    audio: m.audio,
                    audio_type: m.audio_type,
                },
            ),
        ),
        ..c
    }
}

/// Where a message goes that comes in.
#[derive(Debug)]
pub struct Dispatch {
    /// What the pre-process modules are sent.
    pub first: Container,
    /// The pre-process modules.
    pub first_to: Vec<ModuleEntry>,
    /// What goes on.
    pub next: Container,
    /// Where that goes: to the first in-process module, or to all post-process modules
    /// where there is none.
    pub next_to: Vec<ModuleEntry>,
}

/// Where a message goes that comes in: to the pre-process modules, and on to the first
/// in-process module, or to the post-process modules where there is none.
pub fn handle(
    message: &MessagePreProcess,
    container: &Container,
    instance_uuid7: &str,
    config: &Config,
) -> (r: Dispatch)
    ensures
        ({
            let sent = ContainerView { module_instance_uuid7: instance_uuid7@, ..container@ };
            let inprocess = by_priority(stage_entries(config@, "inprocess"@));
            &&& r.first@ == sent
            &&& views(r.first_to@) == by_priority(stage_entries(config@, "preprocess"@))
            &&& if inprocess.len() > 0 {
                r.next@ == sent && views(r.next_to@) == seq![inprocess[0]]
            } else {
                r.next@ == unprocessed(container@, message@) && views(r.next_to@) == by_priority(
                    stage_entries(config@, "postprocess"@),
                )
            }
        }),
{
    let mut sent = container.clone();
    sent.module_instance_uuid7 = instance_uuid7.to_owned();
    let first_to = broadcast_stage(config, "preprocess");
    let mut inprocess = broadcast_stage(config, "inprocess");
    if inprocess.len() > 0 {
        let ghost all = views(inprocess@);
        let head = inprocess.remove(0);
        let mut next_to: Vec<ModuleEntry> = Vec::new();
        next_to.push(head);
        assert(views(next_to@) =~= seq![all[0]]);
        Dispatch { first: sent.clone(), first_to, next: sent, next_to }
    } else {
        let mut out = container.clone();
        out.payload = Some(
            Payload::MessagePostProcess(
                MessagePostProcess {
                    message_uuid7: message.message_uuid7.clone(),
                    raw_message: clone_opt(&message.raw_message),
                    processed_message: String::new(),
                    audio: crate::proto::clone_bytes(&message.audio),
                    audio_type: message.audio_type.clone(),
                },
            ),
        );
        Dispatch {
            first: sent,
            first_to,
            next: out,
            next_to: broadcast_stage(config, "postprocess"),
        }
    }
}

} // verus!
