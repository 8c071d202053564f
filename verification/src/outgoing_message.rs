//! The messages that the server sends, as one closed set.

use crate::rebuild_normal::RebuildNormal;
use crate::server_protocol::{OutgoingMessage, ServerProtocol, ServerProtocolPriority};
use vstd::prelude::*;

verus! {

/// Opens an interface as the top of the window.
#[allow(non_camel_case_types)]
#[derive(Clone, Copy, Debug, PartialEq, Eq)]
pub struct If_OpenTop {
    pub interface: i32,
    pub clear: bool,
    pub verify_id: u16,
}

/// Opens an interface inside a part of another.
#[allow(non_camel_case_types)]
#[derive(Clone, Copy, Debug, PartialEq, Eq)]
pub struct If_OpenSub {
    pub top: i32,
    pub child: i32,
    pub interface: i32,
    pub kind: i32,
    pub verify_id: u16,
}

impl If_OpenTop {
    pub fn new(interface: i32, clear: bool, verify_id: u16) -> (message: Self)
        ensures
            message == (If_OpenTop { interface, clear, verify_id }),
    {
        If_OpenTop { interface, clear, verify_id }
    }
}

impl If_OpenSub {
    pub fn new(top: i32, child: i32, interface: i32, kind: i32, verify_id: u16) -> (message: Self)
        ensures
            message == (If_OpenSub { top, child, interface, kind, verify_id }),
    {
        If_OpenSub { top, child, interface, kind, verify_id }
    }
}

impl OutgoingMessage for If_OpenTop {
    open spec fn priority_of(&self) -> ServerProtocolPriority {
        ServerProtocolPriority::BUFFERED
    }

    open spec fn protocol_of(&self) -> ServerProtocol {
        ServerProtocol::IF_OPENTOP
    }

    fn priority(&self) -> (priority: ServerProtocolPriority) {
        ServerProtocolPriority::BUFFERED
    }

    fn protocol(&self) -> (protocol: ServerProtocol) {
        ServerProtocol::IF_OPENTOP
    }
}

impl OutgoingMessage for If_OpenSub {
    open spec fn priority_of(&self) -> ServerProtocolPriority {
        ServerProtocolPriority::BUFFERED
    }

    open spec fn protocol_of(&self) -> ServerProtocol {
        ServerProtocol::IF_OPENSUB
    }

    fn priority(&self) -> (priority: ServerProtocolPriority) {
        ServerProtocolPriority::BUFFERED
    }

    fn protocol(&self) -> (protocol: ServerProtocol) {
        ServerProtocol::IF_OPENSUB
    }
}

/// Any message that the server sends.
#[derive(Clone, Copy, Debug, PartialEq, Eq)]
pub enum OutgoingMessageEnum {
    RebuildNormal(RebuildNormal),
    IfOpenTop(If_OpenTop),
    IfOpenSub(If_OpenSub),
}

impl OutgoingMessage for OutgoingMessageEnum {
    open spec fn priority_of(&self) -> ServerProtocolPriority {
        match *self {
            OutgoingMessageEnum::RebuildNormal(message) => message.priority_of(),
            OutgoingMessageEnum::IfOpenTop(message) => message.priority_of(),
            OutgoingMessageEnum::IfOpenSub(message) => message.priority_of(),
        }
    }

    open spec fn protocol_of(&self) -> ServerProtocol {
        match *self {
            OutgoingMessageEnum::RebuildNormal(message) => message.protocol_of(),
            OutgoingMessageEnum::IfOpenTop(message) => message.protocol_of(),
            OutgoingMessageEnum::IfOpenSub(message) => message.protocol_of(),
        }
    }

    fn priority(&self) -> (priority: ServerProtocolPriority) {
        match self {
            OutgoingMessageEnum::RebuildNormal(message) => message.priority(),
            OutgoingMessageEnum::IfOpenTop(message) => message.priority(),
            OutgoingMessageEnum::IfOpenSub(message) => message.priority(),
        }
    }

    fn protocol(&self) -> (protocol: ServerProtocol) {
        match self {
            OutgoingMessageEnum::RebuildNormal(message) => message.protocol(),
            OutgoingMessageEnum::IfOpenTop(message) => message.protocol(),
            OutgoingMessageEnum::IfOpenSub(message) => message.protocol(),
        }
    }
}

impl From<RebuildNormal> for OutgoingMessageEnum {
    fn from(message: RebuildNormal) -> (any: Self) {
        OutgoingMessageEnum::RebuildNormal(message)
    }
}

impl vstd::std_specs::convert::FromSpecImpl<RebuildNormal> for OutgoingMessageEnum {
    open spec fn obeys_from_spec() -> bool {
        true
    }

    open spec fn from_spec(message: RebuildNormal) -> Self {
        OutgoingMessageEnum::RebuildNormal(message)
    }
}

impl From<If_OpenTop> for OutgoingMessageEnum {
    fn from(message: If_OpenTop) -> (any: Self) {
        OutgoingMessageEnum::IfOpenTop(message)
    }
}

impl vstd::std_specs::convert::FromSpecImpl<If_OpenTop> for OutgoingMessageEnum {
    open spec fn obeys_from_spec() -> bool {
        true
    }

    open spec fn from_spec(message: If_OpenTop) -> Self {
        OutgoingMessageEnum::IfOpenTop(message)
    }
}

impl From<If_OpenSub> for OutgoingMessageEnum {
    fn from(message: If_OpenSub) -> (any: Self) {
        OutgoingMessageEnum::IfOpenSub(message)
    }
}

impl vstd::std_specs::convert::FromSpecImpl<If_OpenSub> for OutgoingMessageEnum {
    open spec fn obeys_from_spec() -> bool {
        true
    }

    open spec fn from_spec(message: If_OpenSub) -> Self {
        OutgoingMessageEnum::IfOpenSub(message)
    }
}

} // verus!
