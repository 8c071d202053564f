//! A player: the entity in the world, the connection it plays over, and what
//! each tick reads from and writes to that connection.

use crate::coord_grid::CoordGrid;
use crate::entity::{Entity, EntityBehavior, EntityLifeCycle, PathingEntity};
use crate::client_protocol::{
    ClientProtocolCategory, ClientProtocolTable, CLIENT_EVENT_LIMIT, RESTRICTED_EVENT_LIMIT,
    USER_EVENT_LIMIT,
};
use crate::client_protocol_repository::{
    ClientProtocolRepository, MessageDecoderErasure, MessageHandlerErasure,
};
use crate::game_client::{step, GameClient, ReadOutcome};
use crate::move_restrict::{BlockWalk, MoveRestrict, MoveStrategy};
use crate::npc::NPC;
use crate::outgoing_message::{If_OpenSub, If_OpenTop, OutgoingMessageEnum};
use crate::rebuild_normal::RebuildNormal;
use crate::wire::{be_bytes, lemma_truncated_octets, lemma_written_twice, zeros};
use crate::packet::Packet;
use crate::server_protocol::{MessageEncoder, OutgoingMessage, ServerProtocolPriority};
use crate::server_protocol_repository::ServerProtocolRepository;
use crate::tick::{least, run_tick, tick_handled, TickBudget};
use crate::window_status::WindowStatus;
use std::collections::VecDeque;
use vstd::prelude::*;

verus! {

/// Whether a player has a client.
#[derive(Clone, Copy, Debug, PartialEq, Eq)]
pub enum PlayerType {
    ClientBound,
    Headless,
}

/// A player and the connection that the player plays over.
#[derive(Debug)]
pub struct Player {
    pub player_type: PlayerType,
    pub pathing_entity: PathingEntity,
    pub move_restrict: MoveRestrict,
    pub block_walk: BlockWalk,
    pub move_strategy: MoveStrategy,
    pub gender: u8,
    pub playtime: i32,
    pub pid: usize,
    pub username: String,
    pub origin_coord: CoordGrid,
    pub client: GameClient,
    /// How many user events the tick has handled.
    pub user_limit: u8,
    /// How many client events the tick has handled.
    pub client_limit: u8,
    /// How many restricted events the tick has handled.
    pub restricted_limit: u8,
    pub user_path: Vec<i32>,
    pub op_called: bool,
    pub bytes_read: usize,
    pub window_status: WindowStatus,
    pub staff_mod_level: i32,
    pub request_logout: bool,
    pub request_idle_logout: bool,
    pub logging_out: bool,
    pub prevent_logout_until: i32,
    pub last_response: i32,
    pub last_connected: i32,
    pub verify_id: u16,
    /// Whether a script holds protected access.
    pub protect: bool,
    /// The encoded messages that wait to be sent, in the order they go out.
    pub write_queue: VecDeque<Vec<u8>>,
    /// The messages that wait for the end of the tick to be encoded.
    pub outgoing_messages: Vec<OutgoingMessageEnum>,
}

impl Player {
    /// A player at `coord` who plays over the connection taken out of
    /// `client`.
    pub fn new(
        client: &mut Option<GameClient>,
        coord: CoordGrid,
        gender: u8,
        window_status: WindowStatus,
        staff_mod_level: i32,
        pid: usize,
        verify_id: u16,
        username: String,
    ) -> (player: Player)
        requires
            *old(client) is Some,
        ensures
            *final(client) is None,
            player.client == old(client)->Some_0,
            player.player_type == PlayerType::ClientBound,
            player.pathing_entity.entity == (Entity {
                coord,
                width: 1,
                length: 1,
                lifecycle: EntityLifeCycle::FOREVER,
                lifecycle_tick: 0,
                last_lifecycle_tick: 0,
                active: false,
            }),
            !player.pathing_entity.delayed,
            player.move_restrict == MoveRestrict::Normal,
            player.block_walk == BlockWalk::Npc,
            player.move_strategy == MoveStrategy::Smart,
            player.gender == gender,
            player.playtime == -1,
            player.pid == pid,
            player.username == username,
            player.origin_coord == (CoordGrid { coord: 0 }),
            player.staff_mod_level == staff_mod_level,
            player.budget() == TickBudget::fresh(),
            player.user_path@.len() == 0,
            !player.op_called,
            player.bytes_read == 0,
            player.window_status == window_status,
            !player.request_logout && !player.request_idle_logout && !player.logging_out,
            player.prevent_logout_until == -1,
            player.last_response == -1,
            player.last_connected == -1,
            player.verify_id == verify_id,
            !player.protect,
            player.write_queue@.len() == 0,
            player.outgoing_messages@.len() == 0,
    {
        Player {
            player_type: PlayerType::ClientBound,
            pathing_entity: PathingEntity::new(coord, 1, 1, EntityLifeCycle::FOREVER),
            move_restrict: MoveRestrict::Normal,
            block_walk: BlockWalk::Npc,
            move_strategy: MoveStrategy::Smart,
            gender,
            playtime: -1,
            pid,
            username,
            origin_coord: CoordGrid { coord: 0 },
            staff_mod_level,
            client: GameClient::take_ownership(client),
            user_limit: 0,
            client_limit: 0,
            restricted_limit: 0,
            user_path: Vec::new(),
            op_called: false,
            bytes_read: 0,
            window_status,
            request_logout: false,
            request_idle_logout: false,
            logging_out: false,
            prevent_logout_until: -1,
            last_response: -1,
            last_connected: -1,
            verify_id,
            protect: false,
            write_queue: VecDeque::with_capacity(64),
            outgoing_messages: Vec::new(),
        }
    }

    /// How many messages of each category the tick has handled.
    pub open spec fn budget(&self) -> TickBudget {
        TickBudget {
            user: self.user_limit,
            client: self.client_limit,
            restricted: self.restricted_limit,
        }
    }

    /// Whether the player has a client whose connection is active.
    pub open spec fn connected(&self) -> bool {
        self.player_type != PlayerType::Headless && self.client.active
    }

    #[inline(always)]
    pub fn is_client_connected(&self) -> (connected: bool)
        ensures
            connected == self.connected(),
    {
        match self.player_type {
            PlayerType::Headless => false,
            _ => self.client.is_connection_active(),
        }
    }

    pub fn get_entity(&self) -> (entity: &Entity)
        ensures
            *entity == self.pathing_entity.entity,
    {
        &self.pathing_entity.entity
    }

    pub fn get_coord(&self) -> (coord: CoordGrid)
        ensures
            coord == self.pathing_entity.entity.coord,
    {
        self.pathing_entity.coord()
    }

    pub fn set_coord(&mut self, coord: CoordGrid)
        ensures
            *final(self) == (Player {
                pathing_entity: PathingEntity {
                    entity: Entity { coord, ..old(self).pathing_entity.entity },
                    ..old(self).pathing_entity
                },
                ..*old(self)
            }),
    {
        self.pathing_entity.entity.coord = coord;
    }

    pub fn get_origin_coord(&self) -> (coord: CoordGrid)
        ensures
            coord == self.origin_coord,
    {
        self.origin_coord
    }

    pub fn set_origin_coord(&mut self, coord: CoordGrid)
        ensures
            *final(self) == (Player { origin_coord: coord, ..*old(self) }),
    {
        self.origin_coord = coord;
    }

    pub fn get_active(self) -> (active: bool)
        ensures
            active == self.pathing_entity.entity.active,
    {
        self.pathing_entity.active()
    }

    pub fn set_active(&mut self, active: bool)
        ensures
            *final(self) == (Player {
                pathing_entity: PathingEntity {
                    entity: Entity { active, ..old(self).pathing_entity.entity },
                    ..old(self).pathing_entity
                },
                ..*old(self)
            }),
    {
        self.pathing_entity.entity.active = active;
    }

    pub fn get_verify_id(&self) -> (verify_id: u16)
        ensures
            verify_id == self.verify_id,
    {
        self.verify_id
    }

    /// Counts the verify id up by one and gives the new one.
    pub fn get_incremented_verify_id(&mut self) -> (verify_id: u16)
        requires
            old(self).verify_id < u16::MAX,
        ensures
            verify_id == old(self).verify_id + 1,
            *final(self) == (Player { verify_id, ..*old(self) }),
    {
        self.verify_id = self.verify_id + 1;
        self.verify_id
    }

    pub fn set_verify_id(&mut self, verify_id: u16)
        ensures
            *final(self) == (Player { verify_id, ..*old(self) }),
    {
        self.verify_id = verify_id;
    }

    pub fn get_staff_mod_level(&self) -> (level: i32)
        ensures
            level == self.staff_mod_level,
    {
        self.staff_mod_level
    }

    pub fn get_pid(&self) -> (pid: usize)
        ensures
            pid == self.pid,
    {
        self.pid
    }

    pub fn set_pid(&mut self, pid: usize)
        ensures
            *final(self) == (Player { pid, ..*old(self) }),
    {
        self.pid = pid;
    }

    /// Whether something holds the player up.
    pub fn delayed(&self) -> (delayed: bool)
        ensures
            delayed == self.pathing_entity.delayed,
    {
        self.pathing_entity.delayed
    }

    /// Whether a script that asks for protected access is refused: it is
    /// where access is not forced and another script holds it or something holds
    /// the player up. What is not given counts as no.
    pub fn protected_access_denied(&self, protected: Option<bool>, force: Option<bool>) -> (denied:
        bool)
        ensures
            denied == (!force.unwrap_or(false) && protected.unwrap_or(false) && (self.protect
                || self.pathing_entity.delayed)),
    {
        let protect: bool = protected.unwrap_or(false);
        let force: bool = force.unwrap_or(false);
        !force && protect && (self.protect || self.delayed())
    }

    /// `self` is `before` but for what reading changes: the inbound side of
    /// the connection, the budget, and the count of bytes read.
    pub open spec fn read_since(&self, before: Player) -> bool {
        *self == (Player {
            client: GameClient { outbound: before.client.outbound, ..self.client },
            user_limit: self.user_limit,
            client_limit: self.client_limit,
            restricted_limit: self.restricted_limit,
            bytes_read: self.bytes_read,
            ..before
        })
    }

    /// One attempt to read a message, as `step` describes it. A message is
    /// counted against the budget of its category and handed to the decoder and
    /// the handler that are bound to its opcode; one whose opcode is not bound
    /// is dropped.
    fn read<D, H>(
        &mut self,
        table: &ClientProtocolTable,
        repository: &ClientProtocolRepository<D, H>,
        context: &mut H::Context,
    ) -> (processed: bool) where
        D: MessageDecoderErasure,
        H: MessageHandlerErasure<Message = D::Message>,

        requires
            old(self).budget().open(),
        ensures
            final(self).read_since(*old(self)),
            ({
                let taken = step(table.protocols@, old(self).client.read_state());
                &&& final(self).client.read_state() == taken.state
                &&& processed == taken.message is Some
                &&& !processed ==> final(self).budget() == old(self).budget()
                    && final(self).bytes_read == old(self).bytes_read && *final(context) == *old(
                    context,
                )
                &&& processed ==> repository.message_handled(
                    taken.message->Some_0.0.id,
                    taken.message->Some_0.1,
                    *old(context),
                    *final(context),
                )
                &&& processed ==> final(self).budget() == old(self).budget().spent(
                    taken.message->Some_0.0.category,
                ) && final(self).bytes_read == least(
                    old(self).bytes_read + taken.message->Some_0.1.len(),
                    usize::MAX as int,
                )
            }),
    {
        match self.client.read_message(table) {
            ReadOutcome::Message { protocol, payload } => {
                match protocol.category {
                    ClientProtocolCategory::UserEvent => {
                        self.user_limit += 1;
                    },
                    ClientProtocolCategory::ClientEvent => {
                        self.client_limit += 1;
                    },
                    ClientProtocolCategory::RestrictedEvent => {
                        self.restricted_limit += 1;
                    },
                }
                let length: usize = payload.len();
                let ghost before = self.client.inbound;
                let handled: Option<bool> = repository.dispatch(
                    &protocol,
                    &mut self.client.inbound,
                    length,
                    context,
                );
                proof {
                    assert(repository.dispatched(
                        protocol.id,
                        before,
                        payload@.len() as usize,
                        self.client.inbound,
                        *old(context),
                        *context,
                        handled,
                    ));
                }
                self.bytes_read = self.bytes_read.saturating_add(length);
                true
            },
            _ => false,
        }
    }

    /// The reading of one tick. A player without an active connection reads
    /// nothing. Else the budgets start anew and messages are read as `run_tick`
    /// describes it: one after the other, until the budget of one category is
    /// used up or no whole message has arrived.
    pub fn decode_in<D, H>(
        &mut self,
        current_tick: i32,
        table: &ClientProtocolTable,
        repository: &ClientProtocolRepository<D, H>,
        context: &mut H::Context,
    ) -> (connected: bool) where
        D: MessageDecoderErasure,
        H: MessageHandlerErasure<Message = D::Message>,

        ensures
            connected == old(self).connected(),
            final(self).user_path@.len() == 0,
            !final(self).op_called,
            !connected ==> *final(self) == (Player {
                user_path: final(self).user_path,
                op_called: false,
                ..*old(self)
            }) && *final(context) == *old(context),
            connected ==> ({
                let end = run_tick(
                    table.protocols@,
                    old(self).client.read_state(),
                    TickBudget::fresh(),
                );
                &&& final(self).client.read_state() == end.state
                &&& final(self).budget() == end.budget
                &&& tick_handled(
                    repository,
                    table.protocols@,
                    old(self).client.read_state(),
                    TickBudget::fresh(),
                    *old(context),
                    *final(context),
                )
                &&& final(self).last_connected == current_tick
                &&& final(self).bytes_read == 0
                &&& final(self).last_response == if old(self).bytes_read > 0 || end.bytes > 0 {
                    current_tick
                } else {
                    old(self).last_response
                }
                &&& *final(self) == (Player {
                    client: GameClient { outbound: old(self).client.outbound, ..final(self).client },
                    user_limit: final(self).user_limit,
                    client_limit: final(self).client_limit,
                    restricted_limit: final(self).restricted_limit,
                    bytes_read: 0,
                    last_response: final(self).last_response,
                    last_connected: current_tick,
                    user_path: final(self).user_path,
                    op_called: false,
                    ..*old(self)
                })
            }),
    {
        self.user_path.clear();
        self.op_called = false;
        if !self.is_client_connected() {
            return false;
        }
        self.last_connected = current_tick;
        self.user_limit = 0;
        self.client_limit = 0;
        self.restricted_limit = 0;
        let ghost start = self.client.read_state();
        let ghost whole = run_tick(table.protocols@, start, TickBudget::fresh());
        let ghost mut total: nat = 0;
        let ghost entered = *self;
        let ghost given = *context;
        let mut more: bool = true;
        while more && self.user_limit < USER_EVENT_LIMIT && self.client_limit < CLIENT_EVENT_LIMIT
            && self.restricted_limit < RESTRICTED_EVENT_LIMIT
            invariant
                self.read_since(entered),
                self.bytes_read == least(entered.bytes_read + total, usize::MAX as int),
                more ==> {
                    let rest = run_tick(table.protocols@, self.client.read_state(), self.budget());
                    &&& whole.state == rest.state
                    &&& whole.budget == rest.budget
                    &&& whole.bytes == total + rest.bytes
                },
                !more ==> {
                    &&& whole.state == self.client.read_state()
                    &&& whole.budget == self.budget()
                    &&& whole.bytes == total
                    &&& tick_handled(
                        repository,
                        table.protocols@,
                        start,
                        TickBudget::fresh(),
                        given,
                        *context,
                    )
                },
                more ==> forall|later: H::Context| #[trigger]
                    tick_handled(
                        repository,
                        table.protocols@,
                        self.client.read_state(),
                        self.budget(),
                        *context,
                        later,
                    ) ==> tick_handled(
                        repository,
                        table.protocols@,
                        start,
                        TickBudget::fresh(),
                        given,
                        later,
                    ),
            decreases
                    (if more {
                        1int
                    } else {
                        0int
                    }) + (if self.budget().open() {
                        self.budget().room()
                    } else {
                        0
                    }),
        {
            let ghost taken = step(table.protocols@, self.client.read_state());
            let ghost state = self.client.read_state();
            let ghost budget = self.budget();
            let ghost earlier = *context;
            more = self.read(table, repository, context);
            proof {
                if more {
                    total = total + taken.message->Some_0.1.len();
                    assert forall|later: H::Context| #[trigger]
                        tick_handled(
                            repository,
                            table.protocols@,
                            self.client.read_state(),
                            self.budget(),
                            *context,
                            later,
                        ) implies tick_handled(
                        repository,
                        table.protocols@,
                        start,
                        TickBudget::fresh(),
                        given,
                        later,
                    ) by {
                        assert(repository.message_handled(
                            taken.message->Some_0.0.id,
                            taken.message->Some_0.1,
                            earlier,
                            *context,
                        ));
                        assert(tick_handled(
                            repository,
                            table.protocols@,
                            state,
                            budget,
                            earlier,
                            later,
                        ));
                    }
                } else {
                    assert(tick_handled(
                        repository,
                        table.protocols@,
                        state,
                        budget,
                        earlier,
                        earlier,
                    ));
                }
            }
        }
        proof {
            if more {
                assert(tick_handled(
                    repository,
                    table.protocols@,
                    self.client.read_state(),
                    self.budget(),
                    *context,
                    *context,
                ));
            }
        }
        if self.bytes_read > 0 {
            self.last_response = current_tick;
            self.bytes_read = 0;
        }
        true
    }

    /// Encodes `message` with the encoder of its type and puts the bytes at
    /// the end of what waits to be sent. A message whose type has no encoder is
    /// dropped.
    fn write_self<E>(
        &mut self,
        message: &OutgoingMessageEnum,
        repository: &ServerProtocolRepository<E>,
    ) where E: MessageEncoder<Message = OutgoingMessageEnum>
        requires
            repository.can_encode(message),
        ensures
            queued_bytes(final(self).write_queue@) == queued_bytes(old(self).write_queue@)
                + repository.wire(message),
            *final(self) == (Player { write_queue: final(self).write_queue, ..*old(self) }),
    {
        match repository.get_encoder(message) {
            Some(encoder) => {
                let mut packet: Packet = Packet::new(0);
                encoder.encode(&mut packet, message);
                self.write_queue.push_back(packet.data);
                assert(queued_bytes(self.write_queue@) =~= queued_bytes(old(self).write_queue@)
                    + repository.wire(message));
            },
            None => {
                assert(queued_bytes(self.write_queue@) =~= queued_bytes(old(self).write_queue@)
                    + repository.wire(message));
            },
        }
    }

    /// Sends `message` at once, whatever its priority, if the player is
    /// connected.
    #[inline(always)]
    pub fn write_inner<E>(
        &mut self,
        message: OutgoingMessageEnum,
        repository: &ServerProtocolRepository<E>,
    ) where E: MessageEncoder<Message = OutgoingMessageEnum>
        requires
            repository.can_encode(&message),
        ensures
            !old(self).connected() ==> *final(self) == *old(self),
            old(self).connected() ==> queued_bytes(final(self).write_queue@) == queued_bytes(
                old(self).write_queue@,
            ) + repository.wire(&message),
            *final(self) == (Player { write_queue: final(self).write_queue, ..*old(self) }),
    {
        if !self.is_client_connected() {
            return ;
        }
        self.write_self(&message, repository);
    }

    /// The flush at the end of a tick: the messages that waited are encoded
    /// in the order in which they were written, behind what was sent at once.
    pub fn encode_out<E>(&mut self, repository: &ServerProtocolRepository<E>) where
        E: MessageEncoder<Message = OutgoingMessageEnum>,

        requires
            forall|i: int|
                0 <= i < old(self).outgoing_messages@.len() ==> repository.can_encode(
                    &#[trigger] old(self).outgoing_messages@[i],
                ),
        ensures
            !old(self).connected() ==> *final(self) == *old(self),
            old(self).connected() ==> {
                &&& final(self).outgoing_messages@.len() == 0
                &&& queued_bytes(final(self).write_queue@) == queued_bytes(old(self).write_queue@)
                    + repository.wires(old(self).outgoing_messages@)
            },
            *final(self) == (Player {
                write_queue: final(self).write_queue,
                outgoing_messages: final(self).outgoing_messages,
                ..*old(self)
            }),
    {
        if !self.is_client_connected() {
            return ;
        }
        let mut i: usize = 0;
        assert(old(self).outgoing_messages@.subrange(0, 0) =~= Seq::<OutgoingMessageEnum>::empty());
        assert(queued_bytes(self.write_queue@) =~= queued_bytes(old(self).write_queue@)
            + repository.wires(old(self).outgoing_messages@.subrange(0, 0)));
        while i < self.outgoing_messages.len()
            invariant
                i <= self.outgoing_messages@.len(),
                forall|k: int|
                    0 <= k < self.outgoing_messages@.len() ==> repository.can_encode(
                        &#[trigger] self.outgoing_messages@[k],
                    ),
                *self == (Player { write_queue: self.write_queue, ..*old(self) }),
                queued_bytes(self.write_queue@) == queued_bytes(old(self).write_queue@)
                    + repository.wires(old(self).outgoing_messages@.subrange(0, i as int)),
            decreases self.outgoing_messages@.len() - i,
        {
            let message: OutgoingMessageEnum = self.outgoing_messages[i];
            self.write_self(&message, repository);
            proof {
                let all = old(self).outgoing_messages@;
                assert(all.subrange(0, i + 1).drop_last() =~= all.subrange(0, i as int));
                assert(all.subrange(0, i + 1).last() == message);
            }
            i += 1;
        }
        assert(old(self).outgoing_messages@.subrange(0, i as int) =~= old(self).outgoing_messages@);
        self.outgoing_messages.clear();
    }

    /// Sends `message`: at once where its priority says so, at the end of the
    /// tick else. A player who is not connected sends nothing.
    #[inline(always)]
    pub fn write<E>(
        &mut self,
        message: OutgoingMessageEnum,
        repository: &ServerProtocolRepository<E>,
    ) where E: MessageEncoder<Message = OutgoingMessageEnum>
        requires
            message.priority_of() == ServerProtocolPriority::IMMEDIATE ==> repository.can_encode(
                &message,
            ),
        ensures
            final(self).wrote(*old(self), message, repository.wire(&message)),
    {
        if !self.is_client_connected() {
            return ;
        }
        match message.priority() {
            ServerProtocolPriority::IMMEDIATE => {
                self.write_self(&message, repository);
            },
            ServerProtocolPriority::BUFFERED => {
                self.outgoing_messages.push(message);
            },
        }
    }

    /// Writes the data that opens a session to the connection: the staff
    /// level, six zero bytes, the player's id in two bytes, and two ones.
    fn initial_login_data(&mut self)
        requires
            old(self).client.outbound.position + 11 <= usize::MAX,
        ensures
            final(self).client.outbound.wrote_to(
                old(self).client.outbound,
                login_bytes(old(self).staff_mod_level, old(self).pid),
            ),
            *final(self) == (Player {
                client: GameClient { outbound: final(self).client.outbound, ..old(self).client },
                ..*old(self)
            }),
    {
        let ghost before = self.client.outbound.data@;
        let ghost start = self.client.outbound.position as int;
        let staff: i32 = self.get_staff_mod_level();
        let pid: usize = self.get_pid();
        self.client.outbound.p1(staff);
        self.client.outbound.p1(0);
        self.client.outbound.p1(0);
        self.client.outbound.p1(0);
        self.client.outbound.p1(0);
        self.client.outbound.p1(0);
        self.client.outbound.p1(0);
        self.client.outbound.p2(#[verifier::truncate] (pid as i32));
        self.client.outbound.p1(1);
        self.client.outbound.p1(1);
        proof {
            let z = be_bytes(0, 1);
            let a = be_bytes(staff as int, 1);
            let p = be_bytes((pid as i32) as int, 2);
            let o = be_bytes(1, 1);
            lemma_written_twice(before, start, a, z);
            lemma_written_twice(before, start, a + z, z);
            lemma_written_twice(before, start, a + z + z, z);
            lemma_written_twice(before, start, a + z + z + z, z);
            lemma_written_twice(before, start, a + z + z + z + z, z);
            lemma_written_twice(before, start, a + z + z + z + z + z, z);
            lemma_written_twice(before, start, a + z + z + z + z + z + z, p);
            lemma_written_twice(before, start, a + z + z + z + z + z + z + p, o);
            lemma_written_twice(before, start, a + z + z + z + z + z + z + p + o, o);
            lemma_truncated_octets(pid);
            assert(p =~= be_bytes(pid as int, 2)) by {
                assert(be_bytes((pid as i32) as int, 4)[2] == be_bytes(pid as int, 4)[2]);
                assert(be_bytes((pid as i32) as int, 4)[3] == be_bytes(pid as int, 4)[3]);
            }
            assert(a + z + z + z + z + z + z + p + o + o =~= login_bytes(staff, pid));
        }
    }

    /// Sends the client the part of the map around the player, where the
    /// player has come near the edge of the part sent last, or on a reconnect.
    /// The player's position becomes the middle of the part sent.
    fn rebuild_normal<E>(&mut self, reconnect: bool, repository: &ServerProtocolRepository<E>) where
        E: MessageEncoder<Message = OutgoingMessageEnum>,

        requires
            needs_rebuild(reconnect, old(self).origin_coord, old(self).pathing_entity.entity.coord)
                ==> repository.can_encode(&rebuild_message(old(self).pathing_entity.entity.coord)),
        ensures
            !needs_rebuild(reconnect, old(self).origin_coord, old(self).pathing_entity.entity.coord)
                ==> *final(self) == *old(self),
            needs_rebuild(reconnect, old(self).origin_coord, old(self).pathing_entity.entity.coord)
                ==> {
                &&& *final(self) == (Player {
                    origin_coord: old(self).pathing_entity.entity.coord,
                    write_queue: final(self).write_queue,
                    outgoing_messages: final(self).outgoing_messages,
                    ..*old(self)
                })
                &&& final(self).outgoing_messages@ == old(self).outgoing_messages@
                &&& queued_bytes(final(self).write_queue@) == if old(self).connected() {
                    queued_bytes(old(self).write_queue@) + repository.wire(
                        &rebuild_message(old(self).pathing_entity.entity.coord),
                    )
                } else {
                    queued_bytes(old(self).write_queue@)
                }
            },
    {
        let origin_x: i32 = CoordGrid::zone(self.get_origin_coord().x()) as i32;
        let origin_z: i32 = CoordGrid::zone(self.get_origin_coord().z()) as i32;
        let reload_left_x: i32 = (origin_x - 4) * 8;
        let reload_right_x: i32 = (origin_x + 5) * 8;
        let reload_top_z: i32 = (origin_z + 5) * 8;
        let reload_bottom_z: i32 = (origin_z - 4) * 8;
        let current_x: u16 = self.get_coord().x();
        let current_z: u16 = self.get_coord().z();
        // An edge below zero lies above every position once it is taken as
        // an unsigned number.
        let needs_rebuild: bool = reconnect || reload_left_x < 0 || (current_x as i32)
            < reload_left_x || reload_bottom_z < 0 || (current_z as i32) < reload_bottom_z || (
        current_x as i32) > reload_right_x - 1 || (current_z as i32) > reload_top_z - 1;
        if needs_rebuild {
            let rebuild_msg: RebuildNormal = RebuildNormal::new(
                CoordGrid::zone(current_x) as i32,
                CoordGrid::zone(current_z) as i32,
                self.get_coord().local_x(),
                self.get_coord().local_z(),
            );
            self.write(OutgoingMessageEnum::RebuildNormal(rebuild_msg), repository);
            let coord: CoordGrid = self.get_coord();
            self.set_origin_coord(coord);
        }
    }

    /// What a login does before the login script runs: the data that opens
    /// the session goes to the connection, the map around the player is sent,
    /// and the two interfaces of the window are written, each with a verify id
    /// of its own.
    fn login_start<E>(&mut self, repository: &ServerProtocolRepository<E>) where
        E: MessageEncoder<Message = OutgoingMessageEnum>,

        requires
            old(self).login_ready(repository),
        ensures
            final(self).logged_in_from(*old(self), repository),
    {
        self.initial_login_data();
        self.rebuild_normal(false, repository);
        let window_id: i32 = if self.window_status.window_mode.is_resizeable() {
            746
        } else {
            548
        };
        let mut verify_id: u16 = self.get_incremented_verify_id();
        self.write(
            OutgoingMessageEnum::IfOpenTop(If_OpenTop::new(window_id, false, verify_id)),
            repository,
        );
        verify_id = self.get_incremented_verify_id();
        self.write(
            OutgoingMessageEnum::IfOpenSub(If_OpenSub::new(window_id, 100, 662, 1, verify_id)),
            repository,
        );
        proof {
            let before = *old(self);
            if before.connected() {
                assert(self.outgoing_messages@ =~= before.outgoing_messages@
                    + before.login_interfaces());
            } else {
                assert(self.outgoing_messages@ =~= before.outgoing_messages@);
            }
        }
    }

    /// Whether a login can begin: the connection's packet has room for the
    /// opening data, two more verify ids can be counted, and the map around the
    /// player can be encoded where it has to be sent.
    pub open spec fn login_ready<E>(&self, repository: &ServerProtocolRepository<E>) -> bool where
        E: MessageEncoder<Message = OutgoingMessageEnum>,
     {
        &&& self.client.outbound.position + 11 <= usize::MAX
        &&& self.verify_id + 2 <= u16::MAX
        &&& needs_rebuild(false, self.origin_coord, self.pathing_entity.entity.coord)
            ==> repository.can_encode(&rebuild_message(self.pathing_entity.entity.coord))
    }

    /// The two interface messages of a login, with the verify ids that follow
    /// the player's.
    pub open spec fn login_interfaces(&self) -> Seq<OutgoingMessageEnum> {
        let window_id: i32 = if self.window_status.window_mode.resizeable() {
            746
        } else {
            548
        };
        seq![
            OutgoingMessageEnum::IfOpenTop(
                If_OpenTop { interface: window_id, clear: false, verify_id: (self.verify_id + 1) as u16 },
            ),
            OutgoingMessageEnum::IfOpenSub(
                If_OpenSub {
                    top: window_id,
                    child: 100,
                    interface: 662,
                    kind: 1,
                    verify_id: (self.verify_id + 2) as u16,
                },
            ),
        ]
    }

    /// `self` is `before` after the part of a login that precedes the login
    /// script.
    pub open spec fn logged_in_from<E>(
        &self,
        before: Player,
        repository: &ServerProtocolRepository<E>,
    ) -> bool where E: MessageEncoder<Message = OutgoingMessageEnum> {
        let rebuilt = needs_rebuild(false, before.origin_coord, before.pathing_entity.entity.coord);
        &&& *self == (Player {
            client: GameClient { outbound: self.client.outbound, ..before.client },
            origin_coord: self.origin_coord,
            write_queue: self.write_queue,
            outgoing_messages: self.outgoing_messages,
            verify_id: self.verify_id,
            ..before
        })
        &&& self.client.outbound.wrote_to(
            before.client.outbound,
            login_bytes(before.staff_mod_level, before.pid),
        )
        &&& self.origin_coord == if rebuilt {
            before.pathing_entity.entity.coord
        } else {
            before.origin_coord
        }
        &&& queued_bytes(self.write_queue@) == if rebuilt && before.connected() {
            queued_bytes(before.write_queue@) + repository.wire(
                &rebuild_message(before.pathing_entity.entity.coord),
            )
        } else {
            queued_bytes(before.write_queue@)
        }
        &&& self.verify_id == before.verify_id + 2
        &&& self.outgoing_messages@ == if before.connected() {
            before.outgoing_messages@ + before.login_interfaces()
        } else {
            before.outgoing_messages@
        }
    }

    /// Logs the player in: the session is opened and the map and the window
    /// are sent as `logged_in_from` says, then the login script runs, and at
    /// last the player becomes active.
    pub fn on_login<E, F>(&mut self, repository: &ServerProtocolRepository<E>, login_script: F) where
        E: MessageEncoder<Message = OutgoingMessageEnum>,
        F: FnOnce(&mut Player),

        requires
            old(self).login_ready(repository),
            forall|player: &mut Player| call_requires(login_script, (player,)),
        ensures
            final(self).pathing_entity.entity.active,
            exists|scripted: &mut Player|
                {
                    &&& (*scripted).logged_in_from(*old(self), repository)
                    &&& call_ensures(login_script, (scripted,), ())
                    &&& *final(self) == (Player {
                        pathing_entity: PathingEntity {
                            entity: Entity {
                                active: true,
                                ..final(scripted).pathing_entity.entity
                            },
                            ..final(scripted).pathing_entity
                        },
                        ..*final(scripted)
                    })
                },
    {
        self.login_start(repository);
        login_script(self);
        self.set_active(true);
    }

    /// The player as an entity of either kind.
    pub fn as_entity_type(self) -> (entity: EntityType)
        ensures
            entity == EntityType::Player(self),
    {
        EntityType::Player(self)
    }

    /// `self` is `before` after `message` was written, `wire` being what goes
    /// out for it: nothing has changed where the player is not connected; an
    /// immediate message has gone behind what waits to be sent; any other waits
    /// behind the messages written before it.
    pub open spec fn wrote(
        &self,
        before: Player,
        message: OutgoingMessageEnum,
        wire: Seq<Seq<u8>>,
    ) -> bool {
        &&& *self == (Player {
            write_queue: self.write_queue,
            outgoing_messages: self.outgoing_messages,
            ..before
        })
        &&& queued_bytes(self.write_queue@) == if before.connected() && message.priority_of()
            == ServerProtocolPriority::IMMEDIATE {
            queued_bytes(before.write_queue@) + wire
        } else {
            queued_bytes(before.write_queue@)
        }
        &&& self.outgoing_messages@ == if before.connected() && message.priority_of()
            == ServerProtocolPriority::BUFFERED {
            before.outgoing_messages@.push(message)
        } else {
            before.outgoing_messages@
        }
    }
}

/// An entity of either kind.
#[derive(Debug)]
pub enum EntityType {
    Player(Player),
    Npc(NPC),
}

/// The data that opens a session: the staff level, six zero bytes, the
/// player's id in two bytes, and two ones.
pub open spec fn login_bytes(staff_mod_level: i32, pid: usize) -> Seq<u8> {
    be_bytes(staff_mod_level as int, 1) + zeros(6) + be_bytes(pid as int, 2) + seq![1u8, 1u8]
}

/// Whether the map around the player has to be sent again: on a reconnect,
/// or where the player stands outside the nine zones in the middle of the part
/// sent last. An edge of that part that would lie below zero lets every
/// position count as outside.
pub open spec fn needs_rebuild(reconnect: bool, origin: CoordGrid, current: CoordGrid) -> bool {
    let left = (CoordGrid::zone_of(origin.x_of()) - 4) * 8;
    let right = (CoordGrid::zone_of(origin.x_of()) + 5) * 8;
    let bottom = (CoordGrid::zone_of(origin.z_of()) - 4) * 8;
    let top = (CoordGrid::zone_of(origin.z_of()) + 5) * 8;
    ||| reconnect
    ||| left < 0
    ||| current.x_of() < left
    ||| bottom < 0
    ||| current.z_of() < bottom
    ||| current.x_of() > right - 1
    ||| current.z_of() > top - 1
}

/// The message that sends the part of the map around `coord`.
pub open spec fn rebuild_message(coord: CoordGrid) -> OutgoingMessageEnum {
    OutgoingMessageEnum::RebuildNormal(
        RebuildNormal::of(
            CoordGrid::zone_of(coord.x_of()) as i32,
            CoordGrid::zone_of(coord.z_of()) as i32,
            CoordGrid::local_of(coord.x_of()) as i32,
            CoordGrid::local_of(coord.z_of()) as i32,
        ),
    )
}

/// The bytes of each packet that waits to be sent.
pub open spec fn queued_bytes(queue: Seq<Vec<u8>>) -> Seq<Seq<u8>> {
    Seq::new(queue.len(), |i: int| queue[i]@)
}

impl EntityBehavior for Player {
    open spec fn entity(&self) -> Entity {
        self.pathing_entity.entity
    }

    fn coord(&self) -> (coord: CoordGrid) {
        self.pathing_entity.coord()
    }

    fn width(&self) -> (width: u8) {
        self.pathing_entity.width()
    }

    fn length(&self) -> (length: u8) {
        self.pathing_entity.length()
    }

    fn lifecycle(&self) -> (lifecycle: EntityLifeCycle) {
        self.pathing_entity.lifecycle()
    }

    fn active(&self) -> (active: bool) {
        self.pathing_entity.active()
    }

    fn lifecycle_tick(&self) -> (tick: u32) {
        self.pathing_entity.lifecycle_tick()
    }

    fn last_lifecycle_tick(&self) -> (tick: u32) {
        self.pathing_entity.last_lifecycle_tick()
    }

    fn set_coord(&mut self, coord: CoordGrid) {
        self.pathing_entity.set_coord(coord);
    }

    fn set_active(&mut self, active: bool) {
        self.pathing_entity.set_active(active);
    }

    fn set_lifecycle_tick(&mut self, tick: u32) {
        self.pathing_entity.set_lifecycle_tick(tick);
    }

    fn set_last_lifecycle_tick(&mut self, tick: u32) {
        self.pathing_entity.set_last_lifecycle_tick(tick);
    }
}

} // verus!
