//! The inbound side of one connection: the bytes that have arrived, and the
//! state machine that cuts them into messages without ever waiting for more.

use crate::client_protocol::{
    lookup, ClientProtocol, ClientProtocolTable, SizeMode, MAX_DECLARED_LENGTH,
};
use crate::packet::Packet;
use crate::wire::{cursor_after, taken};
use vstd::prelude::*;

verus! {

/// What the state machine waits for.
#[derive(Clone, Copy, Debug, PartialEq, Eq)]
pub enum ReadPhase {
    /// The opcode of the next message.
    AwaitingOpcode,
    /// The length of the payload, in the one or two bytes that the
    /// descriptor's size mode asks for.
    AwaitingLength { protocol: ClientProtocol },
    /// The payload, of the length given.
    AwaitingPayload { protocol: ClientProtocol, length: u16 },
}

/// What one attempt to read a message came to.
#[derive(Debug)]
pub enum ReadOutcome {
    /// Too few bytes have arrived: what was read of the header is kept.
    NotReady,
    /// The connection broke the protocol and was shut down.
    Shutdown,
    /// A whole message.
    Message { protocol: ClientProtocol, payload: Vec<u8> },
}

/// One connection: what has arrived over it, what is to go out, and where
/// the reading of the next message stands.
#[derive(Debug)]
pub struct GameClient {
    /// The bytes that have arrived; the cursor stands behind those consumed.
    pub buffered: Packet,
    /// The payload of the message read last.
    pub inbound: Packet,
    /// What is to be sent.
    pub outbound: Packet,
    pub phase: ReadPhase,
    pub active: bool,
}

/// The inbound side of a connection, as far as the state machine reads it.
pub struct ReadState {
    /// The bytes that have arrived and were not consumed.
    pub unread: Seq<u8>,
    pub phase: ReadPhase,
    pub active: bool,
}

/// The result of one step: the state it leaves, and a message where one was
/// complete.
pub struct Step {
    pub state: ReadState,
    pub ready: bool,
    pub message: Option<(ClientProtocol, Seq<u8>)>,
}

/// The state after a violation of the protocol: inactive, the input
/// discarded.
pub open spec fn shut_down() -> ReadState {
    ReadState { unread: Seq::empty(), phase: ReadPhase::AwaitingOpcode, active: false }
}

/// Nothing happened: too few bytes have arrived for the phase.
pub open spec fn not_ready(state: ReadState) -> Step {
    Step { state, ready: false, message: None }
}

/// The connection was shut down.
pub open spec fn violation() -> Step {
    Step { state: shut_down(), ready: false, message: None }
}

/// The phase that follows the opcode of `protocol`.
pub open spec fn phase_after_opcode(protocol: ClientProtocol) -> ReadPhase {
    match protocol.size_mode {
        SizeMode::Fixed(length) => ReadPhase::AwaitingPayload { protocol, length },
        _ => ReadPhase::AwaitingLength { protocol },
    }
}

/// Takes the payload, if all of it has arrived.
pub open spec fn step_payload(
    unread: Seq<u8>,
    protocol: ClientProtocol,
    length: u16,
    active: bool,
) -> Step {
    if unread.len() < length {
        not_ready(ReadState { unread, phase: ReadPhase::AwaitingPayload { protocol, length }, active })
    } else {
        Step {
            state: ReadState {
                unread: unread.subrange(length as int, unread.len() as int),
                phase: ReadPhase::AwaitingOpcode,
                active,
            },
            ready: true,
            message: Some((protocol, unread.subrange(0, length as int))),
        }
    }
}

/// Takes the length, if its bytes have arrived, and goes on to the payload. A
/// two-byte length above the cap shuts the connection down.
pub open spec fn step_length(unread: Seq<u8>, protocol: ClientProtocol, active: bool) -> Step {
    match protocol.size_mode {
        SizeMode::Fixed(length) => step_payload(unread, protocol, length, active),
        SizeMode::VarLen1 => if unread.len() < 1 {
            not_ready(ReadState { unread, phase: ReadPhase::AwaitingLength { protocol }, active })
        } else {
            step_payload(
                unread.subrange(1, unread.len() as int),
                protocol,
                unread[0] as u16,
                active,
            )
        },
        SizeMode::VarLen2 => if unread.len() < 2 {
            not_ready(ReadState { unread, phase: ReadPhase::AwaitingLength { protocol }, active })
        } else if unread[0] * 256 + unread[1] > MAX_DECLARED_LENGTH {
            violation()
        } else {
            step_payload(
                unread.subrange(2, unread.len() as int),
                protocol,
                (unread[0] * 256 + unread[1]) as u16,
                active,
            )
        },
    }
}

/// One attempt to read a message: from the phase the state is in, as far as
/// the bytes that have arrived allow. An opcode without a descriptor shuts the
/// connection down.
pub open spec fn step(table: Seq<ClientProtocol>, state: ReadState) -> Step {
    match state.phase {
        ReadPhase::AwaitingOpcode => if state.unread.len() < 1 {
            not_ready(state)
        } else {
            match lookup(table, state.unread[0]) {
                None => violation(),
                Some(protocol) => match phase_after_opcode(protocol) {
                    ReadPhase::AwaitingPayload { protocol, length } => step_payload(
                        state.unread.subrange(1, state.unread.len() as int),
                        protocol,
                        length,
                        state.active,
                    ),
                    _ => step_length(
                        state.unread.subrange(1, state.unread.len() as int),
                        protocol,
                        state.active,
                    ),
                },
            }
        },
        ReadPhase::AwaitingLength { protocol } => step_length(state.unread, protocol, state.active),
        ReadPhase::AwaitingPayload { protocol, length } => step_payload(
            state.unread,
            protocol,
            length,
            state.active,
        ),
    }
}

impl GameClient {
    /// The bytes that have arrived and were not consumed.
    pub open spec fn unread(&self) -> Seq<u8> {
        if self.buffered.position <= self.buffered.data@.len() {
            self.buffered.data@.subrange(
                self.buffered.position as int,
                self.buffered.data@.len() as int,
            )
        } else {
            Seq::empty()
        }
    }

    /// The inbound side as the state machine reads it.
    pub open spec fn read_state(&self) -> ReadState {
        ReadState { unread: self.unread(), phase: self.phase, active: self.active }
    }

    /// A connection on which nothing has arrived.
    pub fn new() -> (client: GameClient)
        ensures
            client.active,
            client.phase == ReadPhase::AwaitingOpcode,
            client.unread() == Seq::<u8>::empty(),
            client.inbound.data@.len() == 0,
            client.outbound.data@.len() == 0,
            client.outbound.position == 0,
    {
        GameClient {
            buffered: Packet::new(0),
            inbound: Packet::new(0),
            outbound: Packet::new(0),
            phase: ReadPhase::AwaitingOpcode,
            active: true,
        }
    }

    /// Takes the connection out of `client` and leaves none there.
    pub fn take_ownership(client: &mut Option<GameClient>) -> (taken: GameClient)
        requires
            *old(client) is Some,
        ensures
            taken == old(client)->Some_0,
            *final(client) is None,
    {
        client.take().unwrap()
    }

    pub fn is_connection_active(&self) -> (active: bool)
        ensures
            active == self.active,
    {
        self.active
    }

    /// Whether at least `n` bytes have arrived and were not consumed.
    pub fn has_available(&self, n: usize) -> (enough: bool)
        ensures
            enough == (self.unread().len() >= n),
    {
        let len: usize = self.buffered.data.len();
        if self.buffered.position <= len {
            len - self.buffered.position >= n
        } else {
            n == 0
        }
    }

    /// Marks the connection inactive and discards what has arrived.
    pub fn shutdown(&mut self)
        ensures
            final(self).read_state() == shut_down(),
            final(self).inbound == old(self).inbound,
            final(self).outbound == old(self).outbound,
    {
        self.buffered = Packet::new(0);
        self.phase = ReadPhase::AwaitingOpcode;
        self.active = false;
        assert(self.unread() =~= Seq::<u8>::empty());
    }

    /// Takes `bytes` as arrived, behind what has arrived before. What was
    /// consumed is dropped from the buffer first.
    pub fn receive(&mut self, bytes: &[u8])
        ensures
            final(self).unread() == old(self).unread() + bytes@,
            final(self).phase == old(self).phase,
            final(self).active == old(self).active,
            final(self).inbound == old(self).inbound,
            final(self).outbound == old(self).outbound,
    {
        let total: usize = self.buffered.data.len();
        let mut kept: Vec<u8> = self.buffered.gbytes(usize::MAX);
        assert(kept@ =~= old(self).unread()) by {
            let data = old(self).buffered.data@;
            let pos = old(self).buffered.position as int;
            assert(kept@ == taken(data, pos, usize::MAX as int));
            if pos < data.len() {
                assert(cursor_after(data.len() as int, pos, usize::MAX as int) == data.len());
            }
        }
        let mut i: usize = 0;
        while i < bytes.len()
            invariant
                i <= bytes@.len(),
                kept@ == old(self).unread() + bytes@.subrange(0, i as int),
            decreases bytes@.len() - i,
        {
            kept.push(bytes[i]);
            assert(kept@ =~= old(self).unread() + bytes@.subrange(0, i + 1));
            i += 1;
        }
        assert(bytes@.subrange(0, bytes@.len() as int) =~= bytes@);
        self.buffered = Packet::from(kept);
        assert(self.unread() =~= old(self).unread() + bytes@);
    }

    /// Moves the next `n` bytes that have arrived into `inbound`, its cursor at
    /// the start.
    pub fn read_packet_with_size(&mut self, n: usize)
        requires
            old(self).unread().len() >= n,
        ensures
            final(self).inbound.data@ == old(self).unread().subrange(0, n as int),
            final(self).inbound.position == 0,
            final(self).inbound.bit_position == 0,
            final(self).unread() == old(self).unread().subrange(
                n as int,
                old(self).unread().len() as int,
            ),
            final(self).phase == old(self).phase,
            final(self).active == old(self).active,
            final(self).outbound == old(self).outbound,
    {
        let block: Vec<u8> = self.buffered.gbytes(n);
        assert(block@ =~= old(self).unread().subrange(0, n as int));
        self.inbound = Packet::from(block);
        assert(self.unread() =~= old(self).unread().subrange(
            n as int,
            old(self).unread().len() as int,
        ));
    }

    /// One attempt to read a message, as `step` describes it. The payload of a
    /// message is left in `inbound` and handed out.
    pub fn read_message(&mut self, table: &ClientProtocolTable) -> (outcome: ReadOutcome)
        ensures
            final(self).read_state() == step(table.protocols@, old(self).read_state()).state,
            final(self).outbound == old(self).outbound,
            match outcome {
                ReadOutcome::NotReady => {
                    let taken = step(table.protocols@, old(self).read_state());
                    !taken.ready && taken.state.active == old(self).active
                        && final(self).inbound == old(self).inbound
                },
                ReadOutcome::Shutdown => step(table.protocols@, old(self).read_state())
                    == violation(),
                ReadOutcome::Message { protocol, payload } => {
                    let taken = step(table.protocols@, old(self).read_state());
                    &&& taken.ready
                    &&& taken.message == Some((protocol, payload@))
                    &&& final(self).inbound.data@ == payload@
                    &&& final(self).inbound.position == 0
                    &&& final(self).inbound.bit_position == 0
                },
            },
    {
        if let ReadPhase::AwaitingOpcode = self.phase {
            if !self.has_available(1) {
                return ReadOutcome::NotReady;
            }
            let ghost before = self.unread();
            let opcode: u8 = self.buffered.g1();
            assert(self.unread() =~= before.subrange(1, before.len() as int));
            match table.get(opcode) {
                None => {
                    self.shutdown();
                    return ReadOutcome::Shutdown;
                },
                Some(protocol) => {
                    self.phase = match protocol.size_mode {
                        SizeMode::Fixed(length) => ReadPhase::AwaitingPayload { protocol, length },
                        _ => ReadPhase::AwaitingLength { protocol },
                    };
                },
            }
        }
        if let ReadPhase::AwaitingLength { protocol } = self.phase {
            let ghost before = self.unread();
            match protocol.size_mode {
                SizeMode::Fixed(length) => {
                    self.phase = ReadPhase::AwaitingPayload { protocol, length };
                },
                SizeMode::VarLen1 => {
                    if !self.has_available(1) {
                        return ReadOutcome::NotReady;
                    }
                    let length: u8 = self.buffered.g1();
                    assert(self.unread() =~= before.subrange(1, before.len() as int));
                    self.phase = ReadPhase::AwaitingPayload { protocol, length: length as u16 };
                },
                SizeMode::VarLen2 => {
                    if !self.has_available(2) {
                        return ReadOutcome::NotReady;
                    }
                    let length: u16 = self.buffered.g2();
                    assert(self.unread() =~= before.subrange(2, before.len() as int));
                    if length > MAX_DECLARED_LENGTH {
                        self.shutdown();
                        return ReadOutcome::Shutdown;
                    }
                    self.phase = ReadPhase::AwaitingPayload { protocol, length };
                },
            }
        }
        match self.phase {
            ReadPhase::AwaitingPayload { protocol, length } => {
                if !self.has_available(length as usize) {
                    return ReadOutcome::NotReady;
                }
                self.read_packet_with_size(length as usize);
                self.phase = ReadPhase::AwaitingOpcode;
                let payload: Vec<u8> = self.inbound.data.clone();
                ReadOutcome::Message { protocol, payload }
            },
            _ => ReadOutcome::NotReady,
        }
    }
}

} // verus!
