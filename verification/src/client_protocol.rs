//! The descriptors of the inbound protocol: for each opcode its category,
//! which decides the budget a message draws on, and the way its length is
//! learned.

use vstd::prelude::*;

verus! {

/// The class of a message from a client; each class has a budget of its own
/// in every tick.
#[derive(Clone, Copy, Debug, PartialEq, Eq)]
pub enum ClientProtocolCategory {
    /// What the client sends by itself.
    ClientEvent,
    /// What the user does.
    UserEvent,
    /// What is open to abuse.
    RestrictedEvent,
}

/// How many client events one connection may have handled in a tick.
pub const CLIENT_EVENT_LIMIT: u8 = 20;

/// How many user events one connection may have handled in a tick.
pub const USER_EVENT_LIMIT: u8 = 5;

/// How many restricted events one connection may have handled in a tick.
pub const RESTRICTED_EVENT_LIMIT: u8 = 2;

/// The longest payload that a two-byte length may announce.
pub const MAX_DECLARED_LENGTH: u16 = 20000;

/// How the length of a message's payload is learned.
#[derive(Clone, Copy, Debug, PartialEq, Eq)]
pub enum SizeMode {
    /// The payload always has this many bytes.
    Fixed(u16),
    /// One byte before the payload gives its length.
    VarLen1,
    /// Two bytes before the payload give its length, most significant first.
    VarLen2,
}

/// The descriptor of one inbound message type.
#[derive(Clone, Copy, Debug, PartialEq, Eq)]
pub struct ClientProtocol {
    pub id: u32,
    pub category: ClientProtocolCategory,
    pub size_mode: SizeMode,
}

/// The descriptors of all inbound message types. An opcode that occurs more
/// than once goes by its first descriptor.
#[derive(Clone, Debug)]
pub struct ClientProtocolTable {
    pub protocols: Vec<ClientProtocol>,
}

/// The first descriptor of `opcode` among `protocols`, if there is one.
pub open spec fn lookup(protocols: Seq<ClientProtocol>, opcode: u8) -> Option<ClientProtocol>
    decreases protocols.len(),
{
    if protocols.len() == 0 {
        None
    } else if protocols[0].id == opcode {
        Some(protocols[0])
    } else {
        lookup(protocols.drop_first(), opcode)
    }
}

impl ClientProtocolCategory {
    /// How many messages of this category one connection may have handled in
    /// a tick.
    pub open spec fn limit_of(self) -> u8 {
        match self {
            ClientProtocolCategory::ClientEvent => CLIENT_EVENT_LIMIT,
            ClientProtocolCategory::UserEvent => USER_EVENT_LIMIT,
            ClientProtocolCategory::RestrictedEvent => RESTRICTED_EVENT_LIMIT,
        }
    }

    pub fn limit(&self) -> (limit: u8)
        ensures
            limit == self.limit_of(),
    {
        match self {
            ClientProtocolCategory::ClientEvent => CLIENT_EVENT_LIMIT,
            ClientProtocolCategory::UserEvent => USER_EVENT_LIMIT,
            ClientProtocolCategory::RestrictedEvent => RESTRICTED_EVENT_LIMIT,
        }
    }
}

impl ClientProtocolTable {
    pub fn new(protocols: Vec<ClientProtocol>) -> (table: ClientProtocolTable)
        ensures
            table.protocols == protocols,
    {
        ClientProtocolTable { protocols }
    }

    /// The descriptor of `opcode`.
    pub fn get(&self, opcode: u8) -> (found: Option<ClientProtocol>)
        ensures
            found == lookup(self.protocols@, opcode),
    {
        let mut i: usize = 0;
        assert(self.protocols@.subrange(0, self.protocols@.len() as int) =~= self.protocols@);
        while i < self.protocols.len()
            invariant
                i <= self.protocols@.len(),
                lookup(self.protocols@, opcode) == lookup(
                    self.protocols@.subrange(i as int, self.protocols@.len() as int),
                    opcode,
                ),
            decreases self.protocols@.len() - i,
        {
            let ghost rest = self.protocols@.subrange(i as int, self.protocols@.len() as int);
            if self.protocols[i].id == opcode as u32 {
                return Some(self.protocols[i]);
            }
            assert(rest.drop_first() =~= self.protocols@.subrange(
                i + 1,
                self.protocols@.len() as int,
            ));
            i += 1;
        }
        None
    }
}

} // verus!
