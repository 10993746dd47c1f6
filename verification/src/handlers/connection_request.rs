//! A module that connects with the PIN alone.
use crate::auth::{pin_matches, verify_pin};
use crate::config::{add_module_to_config, module_added, Config};
use crate::connection::{assign_uuid, rejection, rejection_reply};
use crate::proto::{
    ConnectionRequestReturn, ConnectionRequestReturnView, Container, ContainerView, Payload,
    PayloadView,
};
use crate::text::{lowercase, lowered, same, texts};
use vstd::prelude::*;

verus! {

/// What becomes of a request to connect.
#[derive(Debug)]
pub enum Joining {
    /// The PIN is wrong.
    Rejected { reply: Container },
    /// The candidate for an id is taken; another has to be tried.
    TryAgain,
    /// The module is in.
    Connected { instance_uuid7: String, position: String, reply: Container },
}

/// What a [`Joining`] says.
#[verifier::ext_equal]
pub enum JoiningView {
    Rejected { reply: ContainerView },
    TryAgain,
    Connected { instance_uuid7: Seq<char>, position: Seq<char>, reply: ContainerView },
}

impl View for Joining {
    type V = JoiningView;

    open spec fn view(&self) -> JoiningView {
        match *self {
            Joining::Rejected { reply } => JoiningView::Rejected {
                reply: reply@,
            },
            Joining::TryAgain => JoiningView::TryAgain,
            Joining::Connected { instance_uuid7, position, reply } => JoiningView::Connected {
                instance_uuid7: instance_uuid7@,
                position: position@,
                reply: reply@,
            },
        }
    }
}

/// The position that a lower-case name stands for; a name that stands for none is an input.
pub open spec fn position_for(lower: Seq<char>) -> Seq<char> {
    if lower == "preprocess"@ {
        "preprocess"@
    } else if lower == "inprocess"@ {
        "inprocess"@
    } else if lower == "postprocess"@ || lower == "output"@ || lower == "outputs"@ || lower
        == "display"@ || lower == "post"@ {
        "postprocess"@
    } else {
        "input"@
    }
}

/// The position that a lower-case name stands for.
pub fn read_position(lower: &str) -> (r: String)
    ensures
        r@ == position_for(lower@),
{
    if same(lower, "preprocess") {
        "preprocess".to_owned()
    } else if same(lower, "inprocess") {
        "inprocess".to_owned()
    } else if same(lower, "postprocess") || same(lower, "output") || same(lower, "outputs") || same(
        lower,
        "display",
    ) || same(lower, "post") {
        "postprocess".to_owned()
    } else {
        "input".to_owned()
    }
}

/// What a module is answered that is in: its id, where it is not the one it asked for.
pub open spec fn welcome(assigned: Seq<char>, requested: Seq<char>) -> ContainerView {
    ContainerView {
        version: 1,
        auth_token: Seq::empty(),
        module_name: "cockatiel"@,
        module_instance_uuid7: assigned,
        payload: Some(
            PayloadView::ConnectionRequestReturn(
                ConnectionRequestReturnView {
                    new_port: 0,
                    module_instance_uuid7: if assigned != requested {
                        assigned
                    } else {
                        Seq::empty()
                    },
                },
            ),
        ),
    }
}

/// The id that a module gets, if one is free.
pub open spec fn assigned_id(
    requested: Seq<char>,
    taken: Seq<Seq<char>>,
    candidate: Seq<char>,
) -> Option<Seq<char>> {
    if requested.len() > 0 && !taken.contains(requested) {
        Some(requested)
    } else if !taken.contains(candidate) {
        Some(candidate)
    } else {
        None
    }
}

/// Decides on a request to connect: with the PIN the module gets an id and its place in the
/// settings, without it nothing changes.
pub fn handle(
    pin: i32,
    config_pin: u32,
    module_name: &str,
    requested: &str,
    position: &str,
    priority: i32,
    taken: &Vec<String>,
    candidate: String,
    config: &mut Config,
) -> (r: Joining)
    ensures
        r@ == (if !pin_matches(pin, config_pin) {
            JoiningView::Rejected { reply: rejection_reply() }
        } else {
            match assigned_id(requested@, texts(taken@), candidate@) {
                Some(id) => JoiningView::Connected {
                    instance_uuid7: id,
                    position: position_for(lowercase(position@)),
                    reply: welcome(id, requested@),
                },
                None => JoiningView::TryAgain,
            }
        }),
        final(config)@ == (if r@ is Connected {
            module_added(
                old(config)@,
                module_name@,
                position_for(lowercase(position@)),
                priority,
            )
        } else {
            old(config)@
        }),
{
    if !verify_pin(pin, config_pin) {
        return Joining::Rejected { reply: rejection() };
    }
    let id = match assign_uuid(requested, taken, candidate) {
        Some(id) => id,
        None => {
            return Joining::TryAgain;
        },
    };
    let place = read_position(lowered(position).as_str());
    add_module_to_config(config, module_name, place.as_str(), priority);
    let told = if same(id.as_str(), requested) {
        String::new()
    } else {
        id.clone()
    };
    let reply = Container {
        version: 1,
        auth_token: String::new(),
        module_name: "cockatiel".to_owned(),
        module_instance_uuid7: id.clone(),
        payload: Some(
            Payload::ConnectionRequestReturn(
                ConnectionRequestReturn { new_port: 0, module_instance_uuid7: told },
            ),
        ),
    };
    Joining::Connected { instance_uuid7: id, position: place, reply }
}

} // verus!
