//! What one connection may read in one tick: messages are taken one after the
//! other until the budget of one category is used up or no whole message has
//! arrived.

use crate::client_protocol::{
    lookup, ClientProtocol, ClientProtocolCategory, SizeMode, CLIENT_EVENT_LIMIT,
    MAX_DECLARED_LENGTH, RESTRICTED_EVENT_LIMIT, USER_EVENT_LIMIT,
};
use crate::client_protocol_repository::{
    ClientProtocolRepository, MessageDecoderErasure, MessageHandlerErasure,
};
use crate::game_client::{shut_down, step, ReadPhase, ReadState};
use vstd::prelude::*;

verus! {

/// How many messages of each category a connection has handled in the tick.
#[derive(Clone, Copy, Debug, PartialEq, Eq)]
pub struct TickBudget {
    pub user: u8,
    pub client: u8,
    pub restricted: u8,
}

/// What a tick left: the inbound side, the budget, and how many bytes of
/// payload were read.
pub struct TickEnd {
    pub state: ReadState,
    pub budget: TickBudget,
    pub bytes: nat,
}

impl TickBudget {
    /// Whether no category has used its budget up.
    pub open spec fn open(self) -> bool {
        &&& self.user < USER_EVENT_LIMIT
        &&& self.client < CLIENT_EVENT_LIMIT
        &&& self.restricted < RESTRICTED_EVENT_LIMIT
    }

    /// Whether no category has gone over its budget.
    pub open spec fn within(self) -> bool {
        &&& self.user <= USER_EVENT_LIMIT
        &&& self.client <= CLIENT_EVENT_LIMIT
        &&& self.restricted <= RESTRICTED_EVENT_LIMIT
    }

    /// The budget after one more message of `category`.
    pub open spec fn spent(self, category: ClientProtocolCategory) -> TickBudget {
        match category {
            ClientProtocolCategory::UserEvent => TickBudget { user: (self.user + 1) as u8, ..self },
            ClientProtocolCategory::ClientEvent => TickBudget {
                client: (self.client + 1) as u8,
                ..self
            },
            ClientProtocolCategory::RestrictedEvent => TickBudget {
                restricted: (self.restricted + 1) as u8,
                ..self
            },
        }
    }

    /// How many messages of `category` were handled.
    pub open spec fn of(self, category: ClientProtocolCategory) -> u8 {
        match category {
            ClientProtocolCategory::UserEvent => self.user,
            ClientProtocolCategory::ClientEvent => self.client,
            ClientProtocolCategory::RestrictedEvent => self.restricted,
        }
    }

    /// How many messages fit the budget at most, all categories together.
    pub open spec fn room(self) -> int {
        (USER_EVENT_LIMIT - self.user) + (CLIENT_EVENT_LIMIT - self.client) + (
        RESTRICTED_EVENT_LIMIT - self.restricted)
    }

    /// The budget at the start of a tick.
    pub open spec fn fresh() -> TickBudget {
        TickBudget { user: 0, client: 0, restricted: 0 }
    }
}

/// The rest of a tick from `state` on: while every budget is open, the next
/// message is taken and counted; the first attempt that yields none ends the
/// tick, and what it left of a header is kept.
pub open spec fn run_tick(table: Seq<ClientProtocol>, state: ReadState, budget: TickBudget) -> TickEnd
    decreases
            (if budget.open() {
                budget.room()
            } else {
                0
            }),
{
    if !budget.open() {
        TickEnd { state, budget, bytes: 0 }
    } else {
        let taken = step(table, state);
        match taken.message {
            Some((protocol, payload)) => {
                let rest = run_tick(table, taken.state, budget.spent(protocol.category));
                TickEnd { bytes: payload.len() + rest.bytes, ..rest }
            },
            None => TickEnd { state: taken.state, budget, bytes: 0 },
        }
    }
}

/// Whether the handlers of `repository` may make `later` of the context
/// `earlier` in the rest of a tick from `state` on: each message that
/// `run_tick` takes is handled as `message_handled` says, one after the other
/// in the order in which they arrived, each from the context that the one
/// before left; a message whose opcode is not bound leaves the context as it
/// is.
pub open spec fn tick_handled<D, H>(
    repository: &ClientProtocolRepository<D, H>,
    table: Seq<ClientProtocol>,
    state: ReadState,
    budget: TickBudget,
    earlier: H::Context,
    later: H::Context,
) -> bool where D: MessageDecoderErasure, H: MessageHandlerErasure<Message = D::Message>
    decreases
            (if budget.open() {
                budget.room()
            } else {
                0
            }),
{
    if !budget.open() {
        later == earlier
    } else {
        let taken = step(table, state);
        match taken.message {
            Some((protocol, payload)) => exists|between: H::Context|
                {
                    &&& #[trigger] repository.message_handled(
                        protocol.id,
                        payload,
                        earlier,
                        between,
                    )
                    &&& tick_handled(
                        repository,
                        table,
                        taken.state,
                        budget.spent(protocol.category),
                        between,
                        later,
                    )
                },
            None => later == earlier,
        }
    }
}

/// No tick handles more messages of a category than its budget allows.
pub proof fn lemma_tick_keeps_budget(
    table: Seq<ClientProtocol>,
    state: ReadState,
    budget: TickBudget,
)
    requires
        budget.within(),
    ensures
        run_tick(table, state, budget).budget.within(),
        run_tick(table, state, budget).budget.user >= budget.user,
        run_tick(table, state, budget).budget.client >= budget.client,
        run_tick(table, state, budget).budget.restricted >= budget.restricted,
    decreases
            (if budget.open() {
                budget.room()
            } else {
                0
            }),
{
    if budget.open() {
        let taken = step(table, state);
        match taken.message {
            Some((protocol, payload)) => {
                lemma_tick_keeps_budget(table, taken.state, budget.spent(protocol.category));
            },
            None => {},
        }
    }
}

/// Once the budget of a category is used up, the tick reads nothing more:
/// what has arrived stays as it is, for the next tick.
pub proof fn lemma_used_up_budget_reads_nothing(
    table: Seq<ClientProtocol>,
    state: ReadState,
    budget: TickBudget,
)
    requires
        !budget.open(),
    ensures
        run_tick(table, state, budget).state == state,
        run_tick(table, state, budget).budget == budget,
        run_tick(table, state, budget).bytes == 0,
{
}

/// Whether `rest` is the end of `whole`.
pub open spec fn is_suffix(rest: Seq<u8>, whole: Seq<u8>) -> bool {
    rest.len() <= whole.len() && rest == whole.subrange(whole.len() - rest.len(), whole.len() as int)
}

/// One attempt to read consumes bytes from the front only: what is left is
/// the end of what had arrived, unless the connection was shut down. A
/// message's payload is part of what was consumed.
pub proof fn lemma_step_consumes_the_front(table: Seq<ClientProtocol>, state: ReadState)
    ensures
        ({
            let taken = step(table, state);
            &&& taken.state.active == state.active || taken.state == shut_down()
            &&& taken.state != shut_down() ==> is_suffix(taken.state.unread, state.unread)
            &&& taken.message is Some ==> taken.ready && taken.state.phase
                == ReadPhase::AwaitingOpcode && is_suffix(taken.state.unread, state.unread)
                && taken.message->Some_0.1.len() <= state.unread.len() - taken.state.unread.len()
            &&& taken.message is None ==> !taken.ready
        }),
{
    let taken = step(table, state);
    let whole = state.unread;
    assert(whole.subrange(0, whole.len() as int) =~= whole);
    if whole.len() >= 1 {
        let one = whole.subrange(1, whole.len() as int);
        assert(one.subrange(0, one.len() as int) =~= one);
        assert forall|k: int| 0 <= k <= one.len() implies #[trigger] one.subrange(
            k,
            one.len() as int,
        ) =~= whole.subrange(k + 1, whole.len() as int) by {}
    }
    if whole.len() >= 3 {
        let three = whole.subrange(1, whole.len() as int).subrange(2, whole.len() - 1);
        assert(three =~= whole.subrange(3, whole.len() as int));
        assert forall|k: int| 0 <= k <= three.len() implies #[trigger] three.subrange(
            k,
            three.len() as int,
        ) =~= whole.subrange(k + 3, whole.len() as int) by {}
    }
    if whole.len() >= 2 {
        let two = whole.subrange(2, whole.len() as int);
        assert(two.subrange(0, two.len() as int) =~= two);
        assert forall|k: int| 0 <= k <= two.len() implies #[trigger] two.subrange(
            k,
            two.len() as int,
        ) =~= whole.subrange(k + 2, whole.len() as int) by {}
    }
}

/// A tick loses nothing: unless the connection was shut down, what is left
/// when the tick ends is the end of what had arrived when it began, and the
/// payload bytes read are among those consumed.
pub proof fn lemma_tick_drops_nothing(
    table: Seq<ClientProtocol>,
    state: ReadState,
    budget: TickBudget,
)
    ensures
        ({
            let end = run_tick(table, state, budget);
            &&& end.state.active == state.active || end.state == shut_down()
            &&& end.state != shut_down() ==> is_suffix(end.state.unread, state.unread)
                && end.bytes <= state.unread.len() - end.state.unread.len()
        }),
    decreases
            (if budget.open() {
                budget.room()
            } else {
                0
            }),
{
    assert(state.unread.subrange(0, state.unread.len() as int) =~= state.unread);
    if budget.open() {
        let taken = step(table, state);
        lemma_step_consumes_the_front(table, state);
        match taken.message {
            Some((protocol, payload)) => {
                let next = budget.spent(protocol.category);
                lemma_tick_drops_nothing(table, taken.state, next);
                let end = run_tick(table, taken.state, next);
                if end.state != shut_down() {
                    let whole = state.unread;
                    assert(end.state.unread =~= whole.subrange(
                        whole.len() - end.state.unread.len(),
                        whole.len() as int,
                    ));
                }
            },
            None => {},
        }
    }
}

/// The smaller of two numbers.
pub open spec fn least(a: int, b: int) -> int {
    if a <= b {
        a
    } else {
        b
    }
}

/// A whole message as it lies in the input: its opcode and its payload.
pub struct Frame {
    pub opcode: u8,
    pub payload: Seq<u8>,
}

/// What stands before the payload of a message: the opcode, and the length
/// in one byte or in two where the size mode asks for it.
pub open spec fn frame_header(protocol: ClientProtocol, frame: Frame) -> Seq<u8> {
    match protocol.size_mode {
        SizeMode::Fixed(_) => seq![frame.opcode],
        SizeMode::VarLen1 => seq![frame.opcode, frame.payload.len() as u8],
        SizeMode::VarLen2 => seq![
            frame.opcode,
            (frame.payload.len() / 256) as u8,
            (frame.payload.len() % 256) as u8,
        ],
    }
}

/// Whether the payload has a length that the size mode can announce.
pub open spec fn frame_fits(protocol: ClientProtocol, frame: Frame) -> bool {
    match protocol.size_mode {
        SizeMode::Fixed(length) => frame.payload.len() == length,
        SizeMode::VarLen1 => frame.payload.len() <= 255,
        SizeMode::VarLen2 => frame.payload.len() <= MAX_DECLARED_LENGTH,
    }
}

/// Whether `frame` is a message of `category` that the table knows.
pub open spec fn frame_of(
    table: Seq<ClientProtocol>,
    category: ClientProtocolCategory,
    frame: Frame,
) -> bool {
    match lookup(table, frame.opcode) {
        Some(protocol) => protocol.category == category && frame_fits(protocol, frame),
        None => false,
    }
}

/// The messages as they lie in the input, one behind the other, and `rest`
/// behind them.
pub open spec fn frames_bytes(table: Seq<ClientProtocol>, frames: Seq<Frame>, rest: Seq<u8>) -> Seq<
    u8,
>
    decreases frames.len(),
{
    if frames.len() == 0 {
        rest
    } else {
        frame_header(lookup(table, frames[0].opcode)->Some_0, frames[0]) + frames[0].payload
            + frames_bytes(table, frames.drop_first(), rest)
    }
}

/// How many bytes of payload the messages hold together.
pub open spec fn payload_total(frames: Seq<Frame>) -> nat
    decreases frames.len(),
{
    if frames.len() == 0 {
        0
    } else {
        frames[0].payload.len() + payload_total(frames.drop_first())
    }
}

/// Whether the handlers of `repository` may make `later` of `earlier` when
/// they are given exactly these messages, each once, in this order.
pub open spec fn frames_handled<D, H>(
    repository: &ClientProtocolRepository<D, H>,
    frames: Seq<Frame>,
    earlier: H::Context,
    later: H::Context,
) -> bool where D: MessageDecoderErasure, H: MessageHandlerErasure<Message = D::Message>
    decreases frames.len(),
{
    if frames.len() == 0 {
        later == earlier
    } else {
        exists|between: H::Context|
            {
                &&& #[trigger] repository.message_handled(
                    frames[0].opcode as u32,
                    frames[0].payload,
                    earlier,
                    between,
                )
                &&& frames_handled(repository, frames.drop_first(), between, later)
            }
    }
}

/// The descriptor that the table gives for an opcode has that opcode as its
/// id.
pub proof fn lemma_lookup_id(table: Seq<ClientProtocol>, opcode: u8)
    ensures
        lookup(table, opcode) is Some ==> lookup(table, opcode)->Some_0.id == opcode,
    decreases table.len(),
{
    if table.len() > 0 && table[0].id != opcode {
        lemma_lookup_id(table.drop_first(), opcode);
    }
}

/// One attempt to read, with a whole message at the front of the input, takes
/// that message and leaves what lies behind it.
pub proof fn lemma_step_takes_frame(
    table: Seq<ClientProtocol>,
    frame: Frame,
    behind: Seq<u8>,
    active: bool,
)
    requires
        lookup(table, frame.opcode) is Some,
        frame_fits(lookup(table, frame.opcode)->Some_0, frame),
    ensures
        ({
            let protocol = lookup(table, frame.opcode)->Some_0;
            let taken = step(
                table,
                ReadState {
                    unread: frame_header(protocol, frame) + frame.payload + behind,
                    phase: ReadPhase::AwaitingOpcode,
                    active,
                },
            );
            &&& taken.ready
            &&& taken.message == Some((protocol, frame.payload))
            &&& taken.state.unread == behind
            &&& taken.state.phase == ReadPhase::AwaitingOpcode
            &&& taken.state.active == active
        }),
{
    let protocol = lookup(table, frame.opcode)->Some_0;
    let payload = frame.payload;
    let unread = frame_header(protocol, frame) + payload + behind;
    let after_opcode = unread.subrange(1, unread.len() as int);
    assert(unread[0] == frame.opcode);
    match protocol.size_mode {
        SizeMode::Fixed(length) => {
            assert(after_opcode =~= payload + behind);
            assert(after_opcode.subrange(0, length as int) =~= payload);
            assert(after_opcode.subrange(length as int, after_opcode.len() as int) =~= behind);
        },
        SizeMode::VarLen1 => {
            let length = payload.len() as u8;
            assert(after_opcode =~= seq![length] + payload + behind);
            let after_length = after_opcode.subrange(1, after_opcode.len() as int);
            assert(after_length =~= payload + behind);
            assert(after_length.subrange(0, length as int) =~= payload);
            assert(after_length.subrange(length as int, after_length.len() as int) =~= behind);
        },
        SizeMode::VarLen2 => {
            let high = (payload.len() / 256) as u8;
            let low = (payload.len() % 256) as u8;
            assert(after_opcode =~= seq![high, low] + payload + behind);
            assert(high * 256 + low == payload.len());
            let after_length = after_opcode.subrange(2, after_opcode.len() as int);
            assert(after_length =~= payload + behind);
            assert(after_length.subrange(0, payload.len() as int) =~= payload);
            assert(after_length.subrange(payload.len() as int, after_length.len() as int)
                =~= behind);
        },
    }
}

/// A tick that finds a whole message at the front of the input, and has room
/// for it, takes it and goes on with what lies behind it.
pub proof fn lemma_tick_takes_first(
    table: Seq<ClientProtocol>,
    frame: Frame,
    behind: Seq<u8>,
    budget: TickBudget,
    active: bool,
)
    requires
        lookup(table, frame.opcode) is Some,
        frame_fits(lookup(table, frame.opcode)->Some_0, frame),
        budget.open(),
    ensures
        ({
            let protocol = lookup(table, frame.opcode)->Some_0;
            let start = ReadState {
                unread: frame_header(protocol, frame) + frame.payload + behind,
                phase: ReadPhase::AwaitingOpcode,
                active,
            };
            let middle = ReadState { unread: behind, phase: ReadPhase::AwaitingOpcode, active };
            let end = run_tick(table, start, budget);
            let after = run_tick(table, middle, budget.spent(protocol.category));
            &&& end.state == after.state
            &&& end.budget == after.budget
            &&& end.bytes == frame.payload.len() + after.bytes
        }),
{
    let protocol = lookup(table, frame.opcode)->Some_0;
    let start = ReadState {
        unread: frame_header(protocol, frame) + frame.payload + behind,
        phase: ReadPhase::AwaitingOpcode,
        active,
    };
    let middle = ReadState { unread: behind, phase: ReadPhase::AwaitingOpcode, active };
    lemma_step_takes_frame(table, frame, behind, active);
    let taken = step(table, start);
    assert(taken.state == middle);
    assert(taken.message == Some((protocol, frame.payload)));
}

/// A tick that finds a whole message at the front of the input, and has room
/// for it, has it handled first and then what it takes of the rest.
pub proof fn lemma_tick_hands_first<D, H>(
    repository: &ClientProtocolRepository<D, H>,
    table: Seq<ClientProtocol>,
    frame: Frame,
    behind: Seq<u8>,
    budget: TickBudget,
    active: bool,
    earlier: H::Context,
    later: H::Context,
) where D: MessageDecoderErasure, H: MessageHandlerErasure<Message = D::Message>
    requires
        lookup(table, frame.opcode) is Some,
        frame_fits(lookup(table, frame.opcode)->Some_0, frame),
        budget.open(),
    ensures
        ({
            let protocol = lookup(table, frame.opcode)->Some_0;
            let start = ReadState {
                unread: frame_header(protocol, frame) + frame.payload + behind,
                phase: ReadPhase::AwaitingOpcode,
                active,
            };
            let middle = ReadState { unread: behind, phase: ReadPhase::AwaitingOpcode, active };
            tick_handled(repository, table, start, budget, earlier, later) <==> exists|
                between: H::Context,
            |
                {
                    &&& #[trigger] repository.message_handled(
                        frame.opcode as u32,
                        frame.payload,
                        earlier,
                        between,
                    )
                    &&& tick_handled(
                        repository,
                        table,
                        middle,
                        budget.spent(protocol.category),
                        between,
                        later,
                    )
                }
        }),
{
    let protocol = lookup(table, frame.opcode)->Some_0;
    let start = ReadState {
        unread: frame_header(protocol, frame) + frame.payload + behind,
        phase: ReadPhase::AwaitingOpcode,
        active,
    };
    let middle = ReadState { unread: behind, phase: ReadPhase::AwaitingOpcode, active };
    let next = budget.spent(protocol.category);
    lemma_lookup_id(table, frame.opcode);
    lemma_step_takes_frame(table, frame, behind, active);
    let taken = step(table, start);
    assert(taken.state == middle);
    assert(taken.message == Some((protocol, frame.payload)));
    if tick_handled(repository, table, start, budget, earlier, later) {
        let between = choose|between: H::Context|
            {
                &&& #[trigger] repository.message_handled(
                    protocol.id,
                    frame.payload,
                    earlier,
                    between,
                )
                &&& tick_handled(repository, table, middle, next, between, later)
            };
        assert(repository.message_handled(frame.opcode as u32, frame.payload, earlier, between));
        assert(exists|between: H::Context|
            {
                &&& #[trigger] repository.message_handled(
                    frame.opcode as u32,
                    frame.payload,
                    earlier,
                    between,
                )
                &&& tick_handled(repository, table, middle, next, between, later)
            });
    }
    if exists|between: H::Context|
        {
            &&& #[trigger] repository.message_handled(
                frame.opcode as u32,
                frame.payload,
                earlier,
                between,
            )
            &&& tick_handled(repository, table, middle, next, between, later)
        } {
        let between = choose|between: H::Context|
            {
                &&& #[trigger] repository.message_handled(
                    frame.opcode as u32,
                    frame.payload,
                    earlier,
                    between,
                )
                &&& tick_handled(repository, table, middle, next, between, later)
            };
        assert(repository.message_handled(
            taken.message->Some_0.0.id,
            taken.message->Some_0.1,
            earlier,
            between,
        ));
        assert(tick_handled(
            repository,
            table,
            taken.state,
            budget.spent(taken.message->Some_0.0.category),
            between,
            later,
        ));
        assert(tick_handled(repository, table, start, budget, earlier, later));
    }
}

/// What a tick leaves of buffered whole messages of one category: it takes
/// as many as the budget of the category has room for, the first ones, and
/// leaves the others as they are.
pub proof fn lemma_tick_leaves_the_rest(
    table: Seq<ClientProtocol>,
    category: ClientProtocolCategory,
    frames: Seq<Frame>,
    rest: Seq<u8>,
    budget: TickBudget,
    active: bool,
)
    requires
        forall|i: int| 0 <= i < frames.len() ==> frame_of(table, category, #[trigger] frames[i]),
        budget.open(),
        frames.len() >= category.limit_of() - budget.of(category) || rest.len() == 0,
    ensures
        ({
            let handled = least(
                frames.len() as int,
                category.limit_of() - budget.of(category),
            );
            let start = ReadState {
                unread: frames_bytes(table, frames, rest),
                phase: ReadPhase::AwaitingOpcode,
                active,
            };
            let end = run_tick(table, start, budget);
            &&& end.budget.of(category) == budget.of(category) + handled
            &&& forall|other: ClientProtocolCategory|
                other != category ==> #[trigger] end.budget.of(other) == budget.of(other)
            &&& end.state.unread == frames_bytes(
                table,
                frames.subrange(handled, frames.len() as int),
                rest,
            )
            &&& end.state.phase == ReadPhase::AwaitingOpcode
            &&& end.state.active == active
            &&& end.bytes == payload_total(frames.subrange(0, handled))
        }),
    decreases frames.len(),
{
    let handled = least(frames.len() as int, category.limit_of() - budget.of(category));
    let start = ReadState {
        unread: frames_bytes(table, frames, rest),
        phase: ReadPhase::AwaitingOpcode,
        active,
    };
    if frames.len() == 0 {
        assert(frames.subrange(0, 0) =~= frames);
        assert(step(table, start).message is None && step(table, start).state == start) by {
                }
    } else {
        let first = frames[0];
        let others = frames.drop_first();
        let behind = frames_bytes(table, others, rest);
        let next = budget.spent(category);
        assert(frame_of(table, category, first));
        lemma_tick_takes_first(table, first, behind, budget, active);
        let taken_now = frames.subrange(0, handled);
        let left = frames.subrange(handled, frames.len() as int);
        assert(taken_now[0] == first);
        assert(left =~= others.subrange(handled - 1, others.len() as int));
        assert(taken_now.drop_first() =~= others.subrange(0, handled - 1));
        assert(payload_total(taken_now) == first.payload.len() + payload_total(
            taken_now.drop_first(),
        ));
        let middle = ReadState { unread: behind, phase: ReadPhase::AwaitingOpcode, active };
        let after = run_tick(table, middle, next);
        if next.open() {
            assert forall|i: int| 0 <= i < others.len() implies frame_of(
                table,
                category,
                #[trigger] others[i],
            ) by {
                assert(others[i] == frames[i + 1]);
            }
            lemma_tick_leaves_the_rest(table, category, others, rest, next, active);
        } else {
            assert(handled == 1);
            assert(taken_now.drop_first() =~= Seq::<Frame>::empty());
            assert(left =~= others);
            assert(after.budget == next);
        }
        assert forall|other: ClientProtocolCategory| other != category implies #[trigger] after.budget.of(
            other,
        ) == budget.of(other) by {
            assert(next.of(other) == budget.of(other));
        }
    }
}

/// What a tick has handled of buffered whole messages of one category: as
/// many as the budget of the category has room for, the first ones, each once
/// and in the order in which they arrived.
pub proof fn lemma_tick_hands_in_order<D, H>(
    repository: &ClientProtocolRepository<D, H>,
    table: Seq<ClientProtocol>,
    category: ClientProtocolCategory,
    frames: Seq<Frame>,
    rest: Seq<u8>,
    budget: TickBudget,
    active: bool,
    earlier: H::Context,
    later: H::Context,
) where D: MessageDecoderErasure, H: MessageHandlerErasure<Message = D::Message>
    requires
        forall|i: int| 0 <= i < frames.len() ==> frame_of(table, category, #[trigger] frames[i]),
        budget.open(),
        frames.len() >= category.limit_of() - budget.of(category) || rest.len() == 0,
    ensures
        tick_handled(
            repository,
            table,
            ReadState {
                unread: frames_bytes(table, frames, rest),
                phase: ReadPhase::AwaitingOpcode,
                active,
            },
            budget,
            earlier,
            later,
        ) <==> frames_handled(
            repository,
            frames.subrange(
                0,
                least(frames.len() as int, category.limit_of() - budget.of(category)),
            ),
            earlier,
            later,
        ),
    decreases frames.len(),
{
    let handled = least(frames.len() as int, category.limit_of() - budget.of(category));
    let start = ReadState {
        unread: frames_bytes(table, frames, rest),
        phase: ReadPhase::AwaitingOpcode,
        active,
    };
    if frames.len() == 0 {
        assert(frames.subrange(0, 0) =~= frames);
        assert(step(table, start).message is None) by {
                }
    } else {
        let first = frames[0];
        let others = frames.drop_first();
        let behind = frames_bytes(table, others, rest);
        let next = budget.spent(category);
        let middle = ReadState { unread: behind, phase: ReadPhase::AwaitingOpcode, active };
        assert(frame_of(table, category, first));
        lemma_tick_hands_first(repository, table, first, behind, budget, active, earlier, later);
        let taken_now = frames.subrange(0, handled);
        assert(taken_now[0] == first);
        assert(taken_now.drop_first() =~= others.subrange(0, handled - 1));
        assert forall|i: int| 0 <= i < others.len() implies frame_of(
            table,
            category,
            #[trigger] others[i],
        ) by {
            assert(others[i] == frames[i + 1]);
        }
        if tick_handled(repository, table, start, budget, earlier, later) {
            let between = choose|between: H::Context|
                {
                    &&& #[trigger] repository.message_handled(
                        first.opcode as u32,
                        first.payload,
                        earlier,
                        between,
                    )
                    &&& tick_handled(repository, table, middle, next, between, later)
                };
            if next.open() {
                lemma_tick_hands_in_order(
                    repository,
                    table,
                    category,
                    others,
                    rest,
                    next,
                    active,
                    between,
                    later,
                );
            }
            assert(frames_handled(repository, taken_now.drop_first(), between, later));
            assert(repository.message_handled(
                taken_now[0].opcode as u32,
                taken_now[0].payload,
                earlier,
                between,
            ));
        }
        if frames_handled(repository, taken_now, earlier, later) {
            let between = choose|between: H::Context|
                {
                    &&& #[trigger] repository.message_handled(
                        taken_now[0].opcode as u32,
                        taken_now[0].payload,
                        earlier,
                        between,
                    )
                    &&& frames_handled(repository, taken_now.drop_first(), between, later)
                };
            if next.open() {
                lemma_tick_hands_in_order(
                    repository,
                    table,
                    category,
                    others,
                    rest,
                    next,
                    active,
                    between,
                    later,
                );
            }
            assert(tick_handled(repository, table, middle, next, between, later));
            assert(repository.message_handled(
                first.opcode as u32,
                first.payload,
                earlier,
                between,
            ));
        }
    }
}

/// Two ticks, one after the other, with nothing arriving between them: of
/// buffered whole messages of one category the first tick takes the first
/// ones, as many as the budget allows, and the second tick goes on where the
/// first stopped. No message is left out, taken twice or taken out of its
/// order.
pub proof fn lemma_next_tick_goes_on<D, H>(
    repository: &ClientProtocolRepository<D, H>,
    table: Seq<ClientProtocol>,
    category: ClientProtocolCategory,
    frames: Seq<Frame>,
    rest: Seq<u8>,
    active: bool,
) where D: MessageDecoderErasure, H: MessageHandlerErasure<Message = D::Message>
    requires
        forall|i: int| 0 <= i < frames.len() ==> frame_of(table, category, #[trigger] frames[i]),
        frames.len() >= 2 * category.limit_of() || rest.len() == 0,
    ensures
        ({
            let first = least(frames.len() as int, category.limit_of() as int);
            let second = least(frames.len() - first, category.limit_of() as int);
            let start = ReadState {
                unread: frames_bytes(table, frames, rest),
                phase: ReadPhase::AwaitingOpcode,
                active,
            };
            let middle = run_tick(table, start, TickBudget::fresh());
            let end = run_tick(table, middle.state, TickBudget::fresh());
            &&& middle.budget.of(category) == first
            &&& middle.state.unread == frames_bytes(
                table,
                frames.subrange(first, frames.len() as int),
                rest,
            )
            &&& end.budget.of(category) == second
            &&& end.state.unread == frames_bytes(
                table,
                frames.subrange(first + second, frames.len() as int),
                rest,
            )
            &&& forall|earlier: H::Context, later: H::Context| #[trigger]
                tick_handled(repository, table, start, TickBudget::fresh(), earlier, later)
                    <==> frames_handled(repository, frames.subrange(0, first), earlier, later)
            &&& forall|earlier: H::Context, later: H::Context| #[trigger]
                tick_handled(
                    repository,
                    table,
                    middle.state,
                    TickBudget::fresh(),
                    earlier,
                    later,
                ) <==> frames_handled(
                    repository,
                    frames.subrange(first, first + second),
                    earlier,
                    later,
                )
        }),
{
    let fresh = TickBudget::fresh();
    let first = least(frames.len() as int, category.limit_of() as int);
    let second = least(frames.len() - first, category.limit_of() as int);
    let start = ReadState {
        unread: frames_bytes(table, frames, rest),
        phase: ReadPhase::AwaitingOpcode,
        active,
    };
    let left = frames.subrange(first, frames.len() as int);
    let then = ReadState {
        unread: frames_bytes(table, left, rest),
        phase: ReadPhase::AwaitingOpcode,
        active,
    };
    lemma_tick_leaves_the_rest(table, category, frames, rest, fresh, active);
    let middle = run_tick(table, start, fresh);
    assert(middle.state == then);
    assert forall|i: int| 0 <= i < left.len() implies frame_of(
        table,
        category,
        #[trigger] left[i],
    ) by {
        assert(left[i] == frames[first + i]);
    }
    lemma_tick_leaves_the_rest(table, category, left, rest, fresh, active);
    assert(left.subrange(second, left.len() as int) =~= frames.subrange(
        first + second,
        frames.len() as int,
    ));
    assert(left.subrange(0, second) =~= frames.subrange(first, first + second));
    assert forall|earlier: H::Context, later: H::Context| #[trigger]
        tick_handled(repository, table, start, fresh, earlier, later) <==> frames_handled(
            repository,
            frames.subrange(0, first),
            earlier,
            later,
        ) by {
        lemma_tick_hands_in_order(
            repository,
            table,
            category,
            frames,
            rest,
            fresh,
            active,
            earlier,
            later,
        );
    }
    assert forall|earlier: H::Context, later: H::Context| #[trigger]
        tick_handled(repository, table, middle.state, fresh, earlier, later) <==> frames_handled(
            repository,
            frames.subrange(first, first + second),
            earlier,
            later,
        ) by {
        lemma_tick_hands_in_order(
            repository,
            table,
            category,
            left,
            rest,
            fresh,
            active,
            earlier,
            later,
        );
    }
}

} // verus!
