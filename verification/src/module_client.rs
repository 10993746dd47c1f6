//! What a module says to the engine when it connects, and what it makes of the answer.
use crate::proto::{
    ConnectionRequest, ConnectionRequestReturn, ConnectionRequestView, Container, ContainerView,
    Payload, PayloadView, ProcessPosition,
};
use vstd::prelude::*;

verus! {

/// A module's request to connect.
pub open spec fn request_of(
    module_name: Seq<char>,
    position: ProcessPosition,
    instance_uuid7: Seq<char>,
    pin: i32,
) -> ContainerView {
    ContainerView {
        version: 1,
        auth_token: Seq::empty(),
        module_name,
        module_instance_uuid7: instance_uuid7,
        payload: Some(
            PayloadView::ConnectionRequest(
                ConnectionRequestView {
                    pin,
                    process_position: position,
                    priority: 1,
                    module_instance_uuid7: instance_uuid7,
                },
            ),
        ),
    }
}

/// A module's request to connect.
pub fn connection_request(
    module_name: &str,
    position: ProcessPosition,
    instance_uuid7: &str,
    pin: i32,
) -> (r: Container)
    ensures
        r@ == request_of(module_name@, position, instance_uuid7@, pin),
{
    Container {
        version: 1,
        auth_token: String::new(),
        module_name: module_name.to_owned(),
        module_instance_uuid7: instance_uuid7.to_owned(),
        payload: Some(
            Payload::ConnectionRequest(
                ConnectionRequest {
                    pin,
                    process_position: position,
                    priority: 1,
                    module_instance_uuid7: instance_uuid7.to_owned(),
                },
            ),
        ),
    }
}

/// Whether the engine's answer lets a module go on.
pub fn accepted(answer: &ConnectionRequestReturn) -> (r: bool)
    ensures
        r == (answer@.new_port == 0),
{
    answer.new_port == 0
}

} // verus!
