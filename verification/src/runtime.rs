//! The runtime: it keeps the mailboxes of all actors, follows each actor
//! through its life and brings the whole system to a stop.
//!
//! The runtime decides and records; it does not run anything itself. Whoever
//! drives the actors asks it for each actor's next input, hands it the
//! messages that the actors send, and tells it when an actor has ended.
//!
//! Every actor has two channels: its mailbox of messages, and a channel of
//! requests from the runtime, which is looked at first.

use crate::link::DynSender;
use crate::link::SignalSender;
use crate::mailbox::Delivery;
use crate::mailbox::Mailbox;
use crate::mailbox::MailboxState;
use crate::mailbox::SendError;
use std::collections::VecDeque;
use vstd::prelude::*;

verus! {

/// The number of requests that an actor's channel of requests holds.
pub const CONTROL_CAPACITY: usize = 10;

/// What the runtime asks of an actor, apart from its own messages.
#[derive(Debug, Clone, Copy, PartialEq, Eq, Structural)]
pub enum RuntimeRequest {
    /// Finish the message at hand, take no further one, release everything and end.
    Shutdown,
}

/// Where an actor stands in its life. An actor only ever moves forward.
#[derive(Debug, Clone, Copy, PartialEq, Eq, Structural)]
pub enum Phase {
    /// Its links are being established.
    Constructing,
    /// Its links are complete, the actor exists.
    Built,
    /// It was handed to the runtime.
    Spawned,
    /// It has asked for its first input.
    Running,
    /// It has ended.
    Terminated,
}

impl Phase {
    /// The place of a phase in the order of an actor's life.
    pub open spec fn rank(self) -> nat {
        match self {
            Phase::Constructing => 0,
            Phase::Built => 1,
            Phase::Spawned => 2,
            Phase::Running => 3,
            Phase::Terminated => 4,
        }
    }

    /// Whether an actor in this phase is scheduled: handed to the runtime and not yet ended.
    pub open spec fn live(self) -> bool {
        self == Phase::Spawned || self == Phase::Running
    }
}

/// How an actor ended.
#[derive(Debug, Clone, Copy, PartialEq, Eq, Structural)]
pub enum Exit {
    /// It ended of its own accord or on request.
    Finished,
    /// It ended on a fault.
    Failed,
}

/// What an actor finds when it asks for its next input.
#[derive(Debug, Clone, PartialEq, Eq)]
pub enum Wake<M> {
    /// The runtime asked it to shut down: it takes no more messages.
    Stop,
    /// The oldest message of its mailbox.
    Message(M),
    /// Nothing waits for it now.
    Idle,
    /// There is no scheduled actor at this address.
    Gone,
}

/// Why the runtime refuses a request, or why it gave up.
#[derive(Debug, Clone, Copy, PartialEq, Eq, Structural)]
pub enum RuntimeError {
    /// No actor was registered at `address`.
    UnknownActor { address: usize },
    /// The actor at `address` is in `phase`, from which the step asked for does not lead on.
    WrongPhase { address: usize, phase: Phase },
    /// The runtime is shutting down and starts no more actors.
    ShuttingDown,
    /// The actor at `address` ended on a fault.
    ActorFailed { address: usize },
}

/// The evidence that the builder of the actor at an address has finished its
/// work. Only the builders of this library hand it out.
#[derive(Debug)]
pub struct Built {
    address: usize,
}

impl Built {
    /// The address of the actor that was built.
    pub closed spec fn address(&self) -> usize {
        self.address
    }

    /// The evidence for the actor at `address`.
    pub(crate) fn new(address: usize) -> (built: Built)
        ensures
            built.address() == address,
    {
        Built { address }
    }

    /// The address of the actor that was built.
    pub fn target(&self) -> (address: usize)
        ensures
            address == self.address(),
    {
        self.address
    }
}

/// A message on its way: what an actor wants to send, and to whom.
#[derive(Debug, Clone, PartialEq, Eq)]
pub struct Envelope<M> {
    pub to: DynSender,
    pub message: M,
}

/// One actor as the runtime knows it, as a mathematical value.
pub struct ActorState<M> {
    pub name: Seq<char>,
    pub phase: Phase,
    /// Whether the actor was told to shut down.
    pub stopping: bool,
    /// Whether the actor ended on a fault.
    pub failed: bool,
    /// The actor's own messages.
    pub messages: MailboxState<M>,
    /// The requests of the runtime to the actor.
    pub signals: MailboxState<RuntimeRequest>,
}

impl<M> ActorState<M> {
    /// An actor whose construction begins: nothing sent to it yet.
    pub open spec fn fresh(name: Seq<char>, capacity: usize) -> Self {
        ActorState {
            name,
            phase: Phase::Constructing,
            stopping: false,
            failed: false,
            messages: MailboxState { capacity: capacity as nat, pending: Seq::empty(), closed: false },
            signals: MailboxState {
                capacity: CONTROL_CAPACITY as nat,
                pending: Seq::empty(),
                closed: false,
            },
        }
    }

    /// What the actor finds when it asks for its next input. A request of the
    /// runtime comes before any message, however many messages wait; and once
    /// told to stop, the actor is told so again whenever it asks.
    pub open spec fn wake(self) -> Wake<M> {
        if !self.phase.live() {
            Wake::Gone
        } else if self.stopping || self.signals.pending.len() > 0 {
            Wake::Stop
        } else if self.messages.pending.len() > 0 {
            Wake::Message(self.messages.pending[0])
        } else {
            Wake::Idle
        }
    }

    /// The actor after it asked for its next input: it is running, and what it
    /// was handed has left its channels.
    pub open spec fn next(self) -> Self {
        if !self.phase.live() {
            self
        } else if self.stopping {
            ActorState { phase: Phase::Running, ..self }
        } else if self.signals.pending.len() > 0 {
            ActorState {
                phase: Phase::Running,
                stopping: true,
                signals: self.signals.receive(),
                ..self
            }
        } else {
            ActorState { phase: Phase::Running, messages: self.messages.receive(), ..self }
        }
    }

    /// The actor after it ended: both channels are closed.
    pub open spec fn terminated(self, exit: Exit) -> Self {
        ActorState {
            phase: Phase::Terminated,
            failed: exit == Exit::Failed,
            messages: self.messages.close(),
            signals: self.signals.close(),
            ..self
        }
    }

    /// The actor after `request` was sent to it: the request is in its channel
    /// of requests if that channel took it, and nothing else has changed.
    pub open spec fn signalled(self, request: RuntimeRequest) -> Self {
        ActorState { signals: self.signals.send(request), ..self }
    }

    /// What holds of every actor that the runtime keeps: until it has ended
    /// both its channels are open, and after that both are closed; its channel
    /// of requests has room for one at least; and nothing marks it as failed
    /// or told to stop before it was scheduled.
    pub open spec fn wf(self) -> bool {
        &&& self.signals.capacity > 0
        &&& self.phase != Phase::Terminated ==> !self.signals.closed && !self.messages.closed
        &&& self.phase == Phase::Terminated ==> self.signals.closed && self.messages.closed
        &&& self.failed ==> self.phase == Phase::Terminated
        &&& self.stopping ==> self.phase == Phase::Running || self.phase == Phase::Terminated
    }
}

/// The runtime as a mathematical value.
pub struct RuntimeState<M> {
    /// The actors by address.
    pub actors: Seq<ActorState<M>>,
    /// Whether shutdown was requested.
    pub stopping: bool,
}

/// What `run_to_completion` has to say about a runtime.
pub enum Completion {
    /// Some scheduled actor has not ended: the caller keeps waiting.
    Waiting,
    /// Every scheduled actor has ended and none failed.
    Finished,
    /// Every scheduled actor has ended, and the one at this address failed; it
    /// is the first such by address.
    Failed(int),
}

impl<M> RuntimeState<M> {
    /// Whether `address` is that of a registered actor.
    pub open spec fn knows(self, address: int) -> bool {
        0 <= address < self.actors.len()
    }

    /// The runtime with the actor at `address` replaced.
    pub open spec fn with_actor(self, address: int, actor: ActorState<M>) -> Self {
        RuntimeState { actors: self.actors.update(address, actor), ..self }
    }

    /// The runtime after a new actor was registered at the next free address.
    pub open spec fn register(self, name: Seq<char>, capacity: usize) -> Self {
        RuntimeState { actors: self.actors.push(ActorState::fresh(name, capacity)), ..self }
    }

    /// Why the actor at `address` cannot be marked as built, if it cannot.
    pub open spec fn built_refusal(self, address: int) -> Option<RuntimeError> {
        if !self.knows(address) {
            Some(RuntimeError::UnknownActor { address: address as usize })
        } else if self.actors[address].phase != Phase::Constructing {
            Some(
                RuntimeError::WrongPhase {
                    address: address as usize,
                    phase: self.actors[address].phase,
                },
            )
        } else {
            None
        }
    }

    /// The runtime after the actor at `address` was built.
    pub open spec fn built(self, address: int) -> Self {
        if self.built_refusal(address) is Some {
            self
        } else {
            self.with_actor(address, ActorState { phase: Phase::Built, ..self.actors[address] })
        }
    }

    /// Why the actor at `address` cannot be spawned, if it cannot.
    pub open spec fn spawn_refusal(self, address: int) -> Option<RuntimeError> {
        if self.stopping {
            Some(RuntimeError::ShuttingDown)
        } else if !self.knows(address) {
            Some(RuntimeError::UnknownActor { address: address as usize })
        } else if self.actors[address].phase != Phase::Built {
            Some(
                RuntimeError::WrongPhase {
                    address: address as usize,
                    phase: self.actors[address].phase,
                },
            )
        } else {
            None
        }
    }

    /// The runtime after the actor at `address` was spawned.
    pub open spec fn spawn(self, address: int) -> Self {
        if self.spawn_refusal(address) is Some {
            self
        } else {
            self.with_actor(address, ActorState { phase: Phase::Spawned, ..self.actors[address] })
        }
    }

    /// What the sender of `message` to `address` is told: a handle that leads
    /// nowhere fails like one to a closed mailbox.
    pub open spec fn answer(self, address: int, message: M) -> Result<Delivery<M>, SendError> {
        if !self.knows(address) {
            Err(SendError)
        } else {
            self.actors[address].messages.answer(message)
        }
    }

    /// The runtime after `message` was sent to `address`: only the mailbox of
    /// messages of that actor can have changed.
    pub open spec fn send(self, address: int, message: M) -> Self {
        if !self.knows(address) {
            self
        } else {
            self.with_actor(
                address,
                ActorState {
                    messages: self.actors[address].messages.send(message),
                    ..self.actors[address]
                },
            )
        }
    }

    /// Whether the first message of `outbox` finds its mailbox full, so that
    /// the sender is suspended on it.
    pub open spec fn blocked_on(self, outbox: Seq<Envelope<M>>) -> bool {
        outbox.len() > 0 && self.answer(outbox[0].to.target as int, outbox[0].message) == Ok::<
            Delivery<M>,
            SendError,
        >(Delivery::Suspended(outbox[0].message))
    }

    /// The runtime after an actor sent what waits in its `outbox`: the messages
    /// go out in order, up to the first that finds its mailbox full.
    pub open spec fn flush(self, outbox: Seq<Envelope<M>>) -> Self
        decreases outbox.len(),
    {
        if outbox.len() == 0 || self.blocked_on(outbox) {
            self
        } else {
            self.send(outbox[0].to.target as int, outbox[0].message).flush(outbox.skip(1))
        }
    }

    /// What stays in the `outbox` of an actor after it sent what it could: the
    /// first message that found its mailbox full, and all behind it.
    pub open spec fn unsent(self, outbox: Seq<Envelope<M>>) -> Seq<Envelope<M>>
        decreases outbox.len(),
    {
        if outbox.len() == 0 || self.blocked_on(outbox) {
            outbox
        } else {
            self.send(outbox[0].to.target as int, outbox[0].message).unsent(outbox.skip(1))
        }
    }

    /// The peers that an actor found ended as it sent what waits in its
    /// `outbox`, one for each message that could not be delivered, in order.
    pub open spec fn gone(self, outbox: Seq<Envelope<M>>) -> Seq<DynSender>
        decreases outbox.len(),
    {
        if outbox.len() == 0 || self.blocked_on(outbox) {
            Seq::empty()
        } else {
            let rest = self.send(outbox[0].to.target as int, outbox[0].message).gone(
                outbox.skip(1),
            );
            if self.answer(outbox[0].to.target as int, outbox[0].message) is Err {
                seq![outbox[0].to] + rest
            } else {
                rest
            }
        }
    }

    /// What the sender of `request` to `address` is told.
    pub open spec fn signal_answer(self, address: int, request: RuntimeRequest) -> Result<
        Delivery<RuntimeRequest>,
        SendError,
    > {
        if !self.knows(address) {
            Err(SendError)
        } else {
            self.actors[address].signals.answer(request)
        }
    }

    /// The runtime after `request` was sent to `address`: only the channel of
    /// requests of that actor can have changed.
    pub open spec fn signal(self, address: int, request: RuntimeRequest) -> Self {
        if !self.knows(address) {
            self
        } else {
            self.with_actor(address, self.actors[address].signalled(request))
        }
    }

    /// What the actor at `address` finds when it asks for its next input.
    pub open spec fn wake(self, address: int) -> Wake<M> {
        if !self.knows(address) {
            Wake::Gone
        } else {
            self.actors[address].wake()
        }
    }

    /// The runtime after the actor at `address` asked for its next input.
    pub open spec fn next(self, address: int) -> Self {
        if !self.knows(address) {
            self
        } else {
            self.with_actor(address, self.actors[address].next())
        }
    }

    /// The runtime after shutdown was requested: the request was sent to every
    /// actor, and no further actor is taken on.
    pub open spec fn shutdown(self) -> Self {
        RuntimeState {
            actors: Seq::new(
                self.actors.len(),
                |i: int| self.actors[i].signalled(RuntimeRequest::Shutdown),
            ),
            stopping: true,
        }
    }

    /// Why the end of the actor at `address` cannot be recorded, if it cannot.
    pub open spec fn terminated_refusal(self, address: int) -> Option<RuntimeError> {
        if !self.knows(address) {
            Some(RuntimeError::UnknownActor { address: address as usize })
        } else if !self.actors[address].phase.live() {
            Some(
                RuntimeError::WrongPhase {
                    address: address as usize,
                    phase: self.actors[address].phase,
                },
            )
        } else {
            None
        }
    }

    /// The runtime after the actor at `address` ended. The failure of an actor
    /// is fatal for the whole system: with it, shutdown is requested of all
    /// the others.
    pub open spec fn terminated(self, address: int, exit: Exit) -> Self {
        if self.terminated_refusal(address) is Some {
            self
        } else {
            let ended = self.with_actor(address, self.actors[address].terminated(exit));
            if exit == Exit::Failed {
                ended.shutdown()
            } else {
                ended
            }
        }
    }

    /// Whether an actor with an address below `bound` failed.
    pub open spec fn failed_below(self, bound: int) -> bool {
        exists|i: int| 0 <= i < bound && i < self.actors.len() && #[trigger] self.actors[i].failed
    }

    /// Whether an actor with an address below `bound` is scheduled and has not ended.
    pub open spec fn live_below(self, bound: int) -> bool {
        exists|i: int|
            0 <= i < bound && i < self.actors.len() && (#[trigger] self.actors[i]).phase.live()
    }

    /// Where the system stands. As long as a scheduled actor has not ended,
    /// the caller waits, whatever happened to the others; after that a
    /// failure is reported if there was one.
    pub open spec fn completion(self) -> Completion {
        if self.live_below(self.actors.len() as int) {
            Completion::Waiting
        } else if self.failed_below(self.actors.len() as int) {
            Completion::Failed(
                choose|i: int|
                    0 <= i < self.actors.len() && self.actors[i].failed && !self.failed_below(i),
            )
        } else {
            Completion::Finished
        }
    }

    /// What holds of every runtime: each of its actors is well formed.
    pub open spec fn wf(self) -> bool {
        forall|i: int| 0 <= i < self.actors.len() ==> (#[trigger] self.actors[i]).wf()
    }
}

struct ActorSlot<M> {
    name: String,
    phase: Phase,
    stopping: bool,
    failed: bool,
    messages: Mailbox<M>,
    signals: Mailbox<RuntimeRequest>,
}

impl<M> View for ActorSlot<M> {
    type V = ActorState<M>;

    closed spec fn view(&self) -> ActorState<M> {
        ActorState {
            name: self.name@,
            phase: self.phase,
            stopping: self.stopping,
            failed: self.failed,
            messages: self.messages@,
            signals: self.signals@,
        }
    }
}

/// The actors behind the slots, in order.
spec fn slots<M>(actors: Seq<ActorSlot<M>>) -> Seq<ActorState<M>> {
    Seq::new(actors.len(), |i: int| actors[i]@)
}

/// The runtime of a system of actors.
pub struct Runtime<M> {
    actors: Vec<ActorSlot<M>>,
    stopping: bool,
}

impl<M> View for Runtime<M> {
    type V = RuntimeState<M>;

    closed spec fn view(&self) -> RuntimeState<M> {
        RuntimeState { actors: slots(self.actors@), stopping: self.stopping }
    }
}

/// Sends the request to shut down to every actor of `actors`.
fn broadcast<M>(actors: &mut Vec<ActorSlot<M>>)
    ensures
        slots(final(actors)@) == Seq::new(
            old(actors)@.len(),
            |i: int| old(actors)@[i]@.signalled(RuntimeRequest::Shutdown),
        ),
{
    let mut address: usize = 0;
    while address < actors.len()
        invariant
            address <= actors.len(),
            actors.len() == old(actors).len(),
            forall|i: int|
                0 <= i < address ==> (#[trigger] actors@[i])@ == old(actors)@[i]@.signalled(
                    RuntimeRequest::Shutdown,
                ),
            forall|i: int| address <= i < actors.len() ==> (#[trigger] actors@[i])@ == old(actors)@[i]@,
        decreases actors.len() - address,
    {
        let _ = actors[address].signals.send(RuntimeRequest::Shutdown);
        address = address + 1;
    }
    assert(slots(actors@) =~= Seq::new(
        old(actors)@.len(),
        |i: int| old(actors)@[i]@.signalled(RuntimeRequest::Shutdown),
    ));
}

impl<M> Runtime<M> {
    #[verifier::type_invariant]
    spec fn well_formed(self) -> bool {
        self@.wf()
    }

    /// A runtime without actors.
    pub fn new() -> (runtime: Self)
        ensures
            runtime@.actors == Seq::<ActorState<M>>::empty(),
            !runtime@.stopping,
            runtime@.wf(),
    {
        let runtime = Runtime { actors: Vec::new(), stopping: false };
        assert(runtime@.actors =~= Seq::<ActorState<M>>::empty());
        runtime
    }

    /// The number of actors registered so far.
    pub fn actor_count(&self) -> (count: usize)
        ensures
            count == self@.actors.len(),
            self@.wf(),
    {
        proof {
            use_type_invariant(self);
        }
        self.actors.len()
    }

    /// Registers an actor under construction and opens its two channels: a
    /// mailbox for `capacity` messages and a channel for the requests of the
    /// runtime. The handle returned addresses the actor from now on.
    pub fn register(&mut self, name: String, capacity: usize) -> (sender: DynSender)
        ensures
            final(self)@ == old(self)@.register(name@, capacity),
            sender.target == old(self)@.actors.len(),
            final(self)@.wf(),
    {
        proof {
            use_type_invariant(&*self);
            lemma_life_moves_forward(old(self)@, RuntimeOp::Register { name: name@, capacity });
        }
        let mut actors: Vec<ActorSlot<M>> = Vec::new();
        std::mem::swap(&mut self.actors, &mut actors);
        let address = actors.len();
        actors.push(
            ActorSlot {
                name,
                phase: Phase::Constructing,
                stopping: false,
                failed: false,
                messages: Mailbox::new(capacity),
                signals: Mailbox::new(CONTROL_CAPACITY),
            },
        );
        assert(slots(actors@) =~= old(self)@.register(name@, capacity).actors);
        self.actors = actors;
        DynSender { target: address }
    }

    /// Sends `message` through `sender` to the mailbox of messages behind it.
    /// The send fails when the handle leads nowhere or the actor behind it has
    /// ended; it suspends the sender, handing the message back, when the
    /// mailbox is full.
    pub fn send(&mut self, sender: &DynSender, message: M) -> (result: Result<Delivery<M>, SendError>)
        ensures
            final(self)@ == old(self)@.send(sender.target as int, message),
            result == old(self)@.answer(sender.target as int, message),
            final(self)@.wf(),
    {
        proof {
            use_type_invariant(&*self);
            lemma_life_moves_forward(
                old(self)@,
                RuntimeOp::Send { address: sender.target as int, message },
            );
        }
        let address = sender.target;
        if address >= self.actors.len() {
            return Err(SendError);
        }
        let mut actors: Vec<ActorSlot<M>> = Vec::new();
        std::mem::swap(&mut self.actors, &mut actors);
        let result = actors[address].messages.send(message);
        assert(slots(actors@) =~= old(self)@.send(address as int, message).actors);
        self.actors = actors;
        result
    }

    /// Sends what waits in `outbox`, in order, and stops at the first message
    /// that finds its mailbox full: that one and all behind it stay in the
    /// outbox, and the actor they belong to is suspended until they are gone.
    /// The result names the peers that have ended, one for each message that
    /// could not be delivered.
    pub fn flush(&mut self, outbox: &mut VecDeque<Envelope<M>>) -> (gone: Vec<DynSender>)
        ensures
            final(self)@ == old(self)@.flush(old(outbox)@),
            final(outbox)@ == old(self)@.unsent(old(outbox)@),
            gone@ == old(self)@.gone(old(outbox)@),
            final(outbox)@.len() > 0 ==> final(self)@.blocked_on(final(outbox)@),
            final(self)@.wf(),
    {
        proof {
            use_type_invariant(&*self);
        }
        let mut gone: Vec<DynSender> = Vec::new();
        let mut blocked = false;
        while !blocked && outbox.len() > 0
            invariant
                self@.wf(),
                old(self)@.flush(old(outbox)@) == self@.flush(outbox@),
                old(self)@.unsent(old(outbox)@) == self@.unsent(outbox@),
                old(self)@.gone(old(outbox)@) == gone@ + self@.gone(outbox@),
                blocked ==> self@.blocked_on(outbox@),
            decreases
                    (if blocked {
                        0int
                    } else {
                        1int
                    }),
                    outbox.len(),
        {
            let ghost before = self@;
            let ghost waiting = outbox@;
            let ghost found = gone@;
            match outbox.pop_front() {
                Some(envelope) => {
                    let to = envelope.to;
                    assert(outbox@ =~= waiting.skip(1));
                    match self.send(&to, envelope.message) {
                        Ok(Delivery::Buffered) => {
                            assert(gone@ + self@.gone(outbox@) =~= found + before.gone(waiting));
                        },
                        Ok(Delivery::Suspended(returned)) => {
                            outbox.push_front(Envelope { to, message: returned });
                            assert(outbox@ =~= waiting);
                            assert(self@.actors =~= before.actors);
                            assert(self@ == before);
                            blocked = true;
                        },
                        Err(_) => {
                            gone.push(to);
                            assert(gone@ + self@.gone(outbox@) =~= found + before.gone(waiting)) by {
                                assert(before.gone(waiting) == seq![to] + self@.gone(outbox@));
                            }
                        },
                    }
                },
                None => {},
            }
        }
        proof {
            assert(gone@ + self@.gone(outbox@) =~= gone@);
        }
        gone
    }

    /// Sends `request` through `sender` to the channel of requests behind it,
    /// and to nothing else: the actor's messages stay as they are. The actor
    /// finds the request before any of its messages.
    pub fn signal(&mut self, sender: &SignalSender, request: RuntimeRequest) -> (result: Result<
        Delivery<RuntimeRequest>,
        SendError,
    >)
        ensures
            final(self)@ == old(self)@.signal(sender.target as int, request),
            result == old(self)@.signal_answer(sender.target as int, request),
            final(self)@.wf(),
    {
        proof {
            use_type_invariant(&*self);
            lemma_life_moves_forward(
                old(self)@,
                RuntimeOp::Signal { address: sender.target as int, request },
            );
        }
        let address = sender.target;
        if address >= self.actors.len() {
            return Err(SendError);
        }
        let mut actors: Vec<ActorSlot<M>> = Vec::new();
        std::mem::swap(&mut self.actors, &mut actors);
        let result = actors[address].signals.send(request);
        assert(slots(actors@) =~= old(self)@.signal(address as int, request).actors);
        self.actors = actors;
        result
    }

    /// Records that the actor named by `built` has all its links and exists.
    pub fn built(&mut self, built: &Built) -> (result: Result<(), RuntimeError>)
        ensures
            final(self)@ == old(self)@.built(built.address() as int),
            match result {
                Ok(_) => old(self)@.built_refusal(built.address() as int) is None,
                Err(error) => old(self)@.built_refusal(built.address() as int) == Some(error),
            },
            final(self)@.wf(),
    {
        proof {
            use_type_invariant(&*self);
            lemma_life_moves_forward(
                old(self)@,
                RuntimeOp::Built { address: built.address() as int },
            );
        }
        let address = built.target();
        if address >= self.actors.len() {
            return Err(RuntimeError::UnknownActor { address });
        }
        let phase = self.actors[address].phase;
        match phase {
            Phase::Constructing => {
                let mut actors: Vec<ActorSlot<M>> = Vec::new();
                std::mem::swap(&mut self.actors, &mut actors);
                actors[address].phase = Phase::Built;
                assert(slots(actors@) =~= old(self)@.built(address as int).actors);
                self.actors = actors;
                Ok(())
            },
            _ => Err(RuntimeError::WrongPhase { address, phase }),
        }
    }

    /// Hands the built actor at `address` to the runtime for scheduling. Once
    /// shutdown was requested no actor is taken on.
    pub fn spawn(&mut self, address: usize) -> (result: Result<(), RuntimeError>)
        ensures
            final(self)@ == old(self)@.spawn(address as int),
            match result {
                Ok(_) => old(self)@.spawn_refusal(address as int) is None,
                Err(error) => old(self)@.spawn_refusal(address as int) == Some(error),
            },
            final(self)@.wf(),
    {
        proof {
            use_type_invariant(&*self);
            lemma_life_moves_forward(old(self)@, RuntimeOp::Spawn { address: address as int });
        }
        if self.stopping {
            return Err(RuntimeError::ShuttingDown);
        }
        if address >= self.actors.len() {
            return Err(RuntimeError::UnknownActor { address });
        }
        let phase = self.actors[address].phase;
        match phase {
            Phase::Built => {
                let mut actors: Vec<ActorSlot<M>> = Vec::new();
                std::mem::swap(&mut self.actors, &mut actors);
                actors[address].phase = Phase::Spawned;
                assert(slots(actors@) =~= old(self)@.spawn(address as int).actors);
                self.actors = actors;
                Ok(())
            },
            _ => Err(RuntimeError::WrongPhase { address, phase }),
        }
    }

    /// Gives the actor at `address` its next input. A request to shut down
    /// comes before any message; after it the actor is handed no message any more.
    pub fn next(&mut self, address: usize) -> (wake: Wake<M>)
        ensures
            final(self)@ == old(self)@.next(address as int),
            wake == old(self)@.wake(address as int),
            final(self)@.wf(),
    {
        proof {
            use_type_invariant(&*self);
            lemma_life_moves_forward(old(self)@, RuntimeOp::Next { address: address as int });
        }
        if address >= self.actors.len() {
            return Wake::Gone;
        }
        let phase = self.actors[address].phase;
        match phase {
            Phase::Spawned => {},
            Phase::Running => {},
            _ => {
                assert(self@.actors =~= old(self)@.next(address as int).actors);
                return Wake::Gone;
            },
        }
        let mut actors: Vec<ActorSlot<M>> = Vec::new();
        std::mem::swap(&mut self.actors, &mut actors);
        actors[address].phase = Phase::Running;
        let wake = if actors[address].stopping {
            Wake::Stop
        } else if !actors[address].signals.is_empty() {
            let _ = actors[address].signals.receive();
            actors[address].stopping = true;
            Wake::Stop
        } else {
            match actors[address].messages.receive() {
                Some(m) => Wake::Message(m),
                None => Wake::Idle,
            }
        };
        assert(slots(actors@) =~= old(self)@.next(address as int).actors);
        self.actors = actors;
        wake
    }

    /// Records that the actor at `address` has ended, and how. Its channels are
    /// closed. Where it ended on a fault, shutdown is requested of all others.
    pub fn terminated(&mut self, address: usize, exit: Exit) -> (result: Result<(), RuntimeError>)
        ensures
            final(self)@ == old(self)@.terminated(address as int, exit),
            match result {
                Ok(_) => old(self)@.terminated_refusal(address as int) is None,
                Err(error) => old(self)@.terminated_refusal(address as int) == Some(error),
            },
            final(self)@.wf(),
    {
        proof {
            use_type_invariant(&*self);
            lemma_life_moves_forward(
                old(self)@,
                RuntimeOp::Terminated { address: address as int, exit },
            );
        }
        if address >= self.actors.len() {
            return Err(RuntimeError::UnknownActor { address });
        }
        let phase = self.actors[address].phase;
        match phase {
            Phase::Spawned => {},
            Phase::Running => {},
            _ => {
                return Err(RuntimeError::WrongPhase { address, phase });
            },
        }
        let mut actors: Vec<ActorSlot<M>> = Vec::new();
        std::mem::swap(&mut self.actors, &mut actors);
        actors[address].phase = Phase::Terminated;
        actors[address].messages.close();
        actors[address].signals.close();
        let ghost ended = old(self)@.with_actor(
            address as int,
            old(self)@.actors[address as int].terminated(exit),
        );
        match exit {
            Exit::Finished => {
                actors[address].failed = false;
                assert(slots(actors@) =~= ended.actors);
                self.actors = actors;
            },
            Exit::Failed => {
                actors[address].failed = true;
                assert(slots(actors@) =~= ended.actors);
                broadcast(&mut actors);
                assert(slots(actors@) =~= ended.shutdown().actors);
                self.actors = actors;
                self.stopping = true;
            },
        }
        Ok(())
    }

    /// Requests shutdown: the request is sent to every actor, and no further
    /// actor is taken on.
    pub fn shutdown(&mut self)
        ensures
            final(self)@ == old(self)@.shutdown(),
            final(self)@.wf(),
    {
        proof {
            use_type_invariant(&*self);
            lemma_life_moves_forward(old(self)@, RuntimeOp::Shutdown);
        }
        let mut actors: Vec<ActorSlot<M>> = Vec::new();
        std::mem::swap(&mut self.actors, &mut actors);
        broadcast(&mut actors);
        assert(slots(actors@) =~= old(self)@.shutdown().actors);
        self.actors = actors;
        self.stopping = true;
    }

    /// Whether shutdown was requested.
    pub fn is_stopping(&self) -> (stopping: bool)
        ensures
            stopping == self@.stopping,
    {
        self.stopping
    }

    /// The phase of the actor at `address`, if one was registered there.
    pub fn phase(&self, address: usize) -> (phase: Option<Phase>)
        ensures
            phase == if self@.knows(address as int) {
                Some(self@.actors[address as int].phase)
            } else {
                None
            },
    {
        if address >= self.actors.len() {
            None
        } else {
            Some(self.actors[address].phase)
        }
    }

    /// Says whether the system has come to its end: `None` while a scheduled
    /// actor has not ended, so that the caller keeps waiting; after that `Ok`,
    /// or the failure of the first actor by address that ended on a fault.
    pub fn run_to_completion(&self) -> (result: Option<Result<(), RuntimeError>>)
        ensures
            match self@.completion() {
                Completion::Waiting => result.is_none(),
                Completion::Finished => result == Some(Ok::<(), RuntimeError>(())),
                Completion::Failed(address) => self@.knows(address) && result == Some(
                    Err::<(), RuntimeError>(RuntimeError::ActorFailed { address: address as usize }),
                ),
            },
            result is None <==> !self@.all_ended(),
            result matches Some(Err(error)) ==> exists|address: int|
                self@.knows(address) && error == (RuntimeError::ActorFailed {
                    address: address as usize,
                }) && self@.actors[address].failed && !self@.failed_below(address),
            result matches Some(Ok(_)) ==> forall|i: int|
                0 <= i < self@.actors.len() ==> !(#[trigger] self@.actors[i]).failed,
    {
        let mut live = false;
        let mut failed: Option<usize> = None;
        let mut address: usize = 0;
        let count = self.actors.len();
        while address < count
            invariant
                address <= count,
                count == self.actors.len(),
                live == self@.live_below(address as int),
                failed is None <==> !self@.failed_below(address as int),
                failed matches Some(first) ==> first < address && self@.actors[first as int].failed
                    && !self@.failed_below(first as int),
            decreases count - address,
        {
            let ghost state = self@;
            let phase = self.actors[address].phase;
            let has_failed = self.actors[address].failed;
            proof {
                assert(state.actors[address as int].phase == phase);
                assert(state.actors[address as int].failed == has_failed);
                if live {
                    let witness = choose|i: int|
                        0 <= i < address && i < state.actors.len() && (
                        #[trigger] state.actors[i]).phase.live();
                    assert(state.actors[witness].phase.live());
                    assert(state.live_below(address + 1));
                }
                if phase.live() {
                    assert(state.live_below(address + 1));
                }
                if failed is Some {
                    let witness = choose|i: int|
                        0 <= i < address && i < state.actors.len() && #[trigger] state.actors[i].failed;
                    assert(state.actors[witness].failed);
                    assert(state.failed_below(address + 1));
                }
                if has_failed {
                    assert(state.failed_below(address + 1));
                }
            }
            match phase {
                Phase::Spawned => {
                    live = true;
                },
                Phase::Running => {
                    live = true;
                },
                _ => {},
            }
            if has_failed && failed.is_none() {
                failed = Some(address);
            }
            address = address + 1;
        }
        proof {
            let state = self@;
            lemma_completion(state);
            if let Some(first) = failed {
                assert(state.knows(first as int) && state.actors[first as int].failed
                    && !state.failed_below(first as int));
            }
            if let Some(first) = failed {
                let chosen = choose|i: int|
                    0 <= i < state.actors.len() && state.actors[i].failed && !state.failed_below(i);
                assert(chosen == first) by {
                    if chosen < first {
                        assert(state.failed_below(first as int));
                    }
                    if chosen > first {
                        assert(state.failed_below(chosen));
                    }
                }
            }
        }
        if live {
            None
        } else {
            match failed {
                Some(address) => Some(Err(RuntimeError::ActorFailed { address })),
                None => Some(Ok(())),
            }
        }
    }
}

/// One request to the runtime.
pub enum RuntimeOp<M> {
    Register { name: Seq<char>, capacity: usize },
    Built { address: int },
    Spawn { address: int },
    Send { address: int, message: M },
    Signal { address: int, request: RuntimeRequest },
    Next { address: int },
    Terminated { address: int, exit: Exit },
    Shutdown,
}

impl<M> RuntimeState<M> {
    /// The runtime after the request `op`.
    pub open spec fn apply(self, op: RuntimeOp<M>) -> Self {
        match op {
            RuntimeOp::Register { name, capacity } => self.register(name, capacity),
            RuntimeOp::Built { address } => self.built(address),
            RuntimeOp::Spawn { address } => self.spawn(address),
            RuntimeOp::Send { address, message } => self.send(address, message),
            RuntimeOp::Signal { address, request } => self.signal(address, request),
            RuntimeOp::Next { address } => self.next(address),
            RuntimeOp::Terminated { address, exit } => self.terminated(address, exit),
            RuntimeOp::Shutdown => self.shutdown(),
        }
    }

    /// The runtime after the actor at `address` took its turn as it must: it
    /// asks for its next input and, told to stop, ends.
    pub open spec fn obey(self, address: int) -> Self {
        if self.wake(address) == Wake::<M>::Stop {
            self.next(address).terminated(address, Exit::Finished)
        } else {
            self.next(address)
        }
    }

    /// The runtime after the actors took their turns in the order `turns`.
    pub open spec fn obey_in(self, turns: Seq<int>) -> Self
        decreases turns.len(),
    {
        if turns.len() == 0 {
            self
        } else {
            self.obey_in(turns.drop_last()).obey(turns.last())
        }
    }

    /// Whether every scheduled actor is about to be told to stop.
    pub open spec fn all_told_to_stop(self) -> bool {
        forall|i: int|
            0 <= i < self.actors.len() && (#[trigger] self.actors[i]).phase.live() ==> self.wake(i)
                == Wake::<M>::Stop
    }

    /// Whether no actor is scheduled any more.
    pub open spec fn all_ended(self) -> bool {
        forall|i: int| 0 <= i < self.actors.len() ==> !(#[trigger] self.actors[i]).phase.live()
    }
}

/// An actor only moves forward in its life, and the runtime stays well formed:
/// whatever is asked of a runtime, no actor leaves it, none falls back to an
/// earlier phase, and a shutdown once requested stays requested.
pub proof fn lemma_life_moves_forward<M>(state: RuntimeState<M>, op: RuntimeOp<M>)
    requires
        state.wf(),
    ensures
        state.apply(op).wf(),
        state.apply(op).actors.len() >= state.actors.len(),
        forall|i: int|
            0 <= i < state.actors.len() ==> (#[trigger] state.apply(op).actors[i]).phase.rank()
                >= state.actors[i].phase.rank(),
        forall|i: int|
            0 <= i < state.actors.len() ==> (#[trigger] state.apply(op).actors[i]).name
                == state.actors[i].name,
        state.stopping ==> state.apply(op).stopping,
{
    let after = state.apply(op);
    assert forall|i: int| 0 <= i < after.actors.len() implies (#[trigger] after.actors[i]).wf() by {
        if i < state.actors.len() {
            assert(state.actors[i].wf());
        }
    }
}

/// The answer of `run_to_completion` comes only when all is over: the caller
/// waits exactly as long as some scheduled actor has not ended, and a failure
/// is reported for an actor that did fail.
pub proof fn lemma_completion<M>(state: RuntimeState<M>)
    ensures
        state.completion() is Waiting <==> !state.all_ended(),
        state.completion() matches Completion::Failed(address) ==> state.knows(address)
            && state.actors[address].failed,
        state.completion() is Finished ==> forall|i: int|
            0 <= i < state.actors.len() ==> !(#[trigger] state.actors[i]).failed,
{
    if state.live_below(state.actors.len() as int) {
        let i = choose|i: int|
            0 <= i < state.actors.len() && i < state.actors.len() && (
            #[trigger] state.actors[i]).phase.live();
        assert(state.actors[i].phase.live());
    } else {
        assert forall|i: int| 0 <= i < state.actors.len() implies !(
        #[trigger] state.actors[i]).phase.live() by {
            if state.actors[i].phase.live() {
                assert(state.live_below(state.actors.len() as int));
            }
        }
        if state.failed_below(state.actors.len() as int) {
            lemma_first_failed(state, state.actors.len() as int);
        } else {
            assert forall|i: int| 0 <= i < state.actors.len() implies !(
            #[trigger] state.actors[i]).failed by {
                if state.actors[i].failed {
                    assert(state.failed_below(state.actors.len() as int));
                }
            }
        }
    }
}

/// Where an actor below `bound` failed, one of them is the first.
pub proof fn lemma_first_failed<M>(state: RuntimeState<M>, bound: int)
    requires
        state.failed_below(bound),
    ensures
        exists|i: int| 0 <= i < state.actors.len() && state.actors[i].failed && !state.failed_below(i),
    decreases bound,
{
    let witness = choose|i: int|
        0 <= i < bound && i < state.actors.len() && #[trigger] state.actors[i].failed;
    if state.failed_below(witness) {
        lemma_first_failed(state, witness);
    } else {
        assert(0 <= witness < state.actors.len() && state.actors[witness].failed
            && !state.failed_below(witness));
    }
}

/// A request sent through an actor's signal handle reaches its channel of
/// requests and nothing else: the messages of every actor and the requests of
/// every other actor stay as they are. If the actor has not ended, a request is
/// pending for it afterwards, and if it is scheduled it is told to stop the
/// next time it asks for input, before any message that waits.
pub proof fn lemma_signal_comes_first<M>(
    state: RuntimeState<M>,
    address: int,
    request: RuntimeRequest,
)
    requires
        state.wf(),
        state.knows(address),
    ensures
        state.signal(address, request).wf(),
        state.signal(address, request).actors.len() == state.actors.len(),
        forall|i: int|
            0 <= i < state.actors.len() ==> (#[trigger] state.signal(address, request).actors[i]).messages
                == state.actors[i].messages,
        forall|i: int|
            0 <= i < state.actors.len() && i != address ==> (#[trigger] state.signal(
                address,
                request,
            ).actors[i]) == state.actors[i],
        state.actors[address].phase != Phase::Terminated ==> state.signal(
            address,
            request,
        ).actors[address].signals.pending.len() > 0,
        state.actors[address].phase.live() ==> state.signal(address, request).wake(address)
            == Wake::<M>::Stop,
        state.actors[address].phase != Phase::Terminated ==> state.signal_answer(address, request)
            is Ok,
{
    lemma_life_moves_forward(state, RuntimeOp::Signal { address, request });
    assert(state.actors[address].wf());
}

/// Shutdown is the request to shut down, sent to every actor.
pub proof fn lemma_shutdown_signals_every_actor<M>(state: RuntimeState<M>, address: int)
    requires
        state.knows(address),
    ensures
        state.shutdown().actors.len() == state.actors.len(),
        state.shutdown().actors[address] == state.signal(
            address,
            RuntimeRequest::Shutdown,
        ).actors[address],
        state.shutdown().stopping,
{
}

/// A request to shut down is seen before any message: once shutdown was
/// requested, every scheduled actor is told to stop the next time it asks for
/// input, however many messages wait in its mailbox.
pub proof fn lemma_shutdown_comes_first<M>(state: RuntimeState<M>)
    requires
        state.wf(),
    ensures
        state.shutdown().wf(),
        state.shutdown().all_told_to_stop(),
        forall|i: int|
            0 <= i < state.actors.len() ==> (#[trigger] state.shutdown().actors[i]).phase
                == state.actors[i].phase,
        forall|i: int|
            0 <= i < state.actors.len() ==> (#[trigger] state.shutdown().actors[i]).messages
                == state.actors[i].messages,
{
    lemma_life_moves_forward(state, RuntimeOp::Shutdown);
    let after = state.shutdown();
    assert forall|i: int|
        0 <= i < after.actors.len() && (#[trigger] after.actors[i]).phase.live() implies after.wake(
        i,
    ) == Wake::<M>::Stop by {
        assert(state.actors[i].wf());
        lemma_signal_comes_first(state, i, RuntimeRequest::Shutdown);
    }
}

/// A turn of one actor leaves the others as they are, and the actor itself no
/// longer scheduled if it was about to be told to stop.
pub proof fn lemma_obey<M>(state: RuntimeState<M>, address: int)
    requires
        state.wf(),
        state.all_told_to_stop(),
    ensures
        state.obey(address).wf(),
        state.obey(address).all_told_to_stop(),
        state.obey(address).actors.len() == state.actors.len(),
        state.knows(address) ==> !state.obey(address).actors[address].phase.live(),
        forall|i: int|
            0 <= i < state.actors.len() && !state.actors[i].phase.live() ==> !(
            #[trigger] state.obey(address).actors[i]).phase.live(),
        forall|i: int|
            0 <= i < state.actors.len() ==> (#[trigger] state.obey(address).actors[i]).failed
                == state.actors[i].failed,
{
    let after = state.obey(address);
    if state.knows(address) {
        assert(state.actors[address].wf());
        assert forall|i: int| 0 <= i < after.actors.len() implies (#[trigger] after.actors[i]).wf()
            && (after.actors[i].phase.live() ==> after.wake(i) == Wake::<M>::Stop) && (
        !state.actors[i].phase.live() ==> !after.actors[i].phase.live()) && after.actors[i].failed
            == state.actors[i].failed by {
            assert(state.actors[i].wf());
            if i != address {
                assert(after.actors[i] == state.actors[i]);
                assert(state.actors[i].phase.live() ==> state.wake(i) == Wake::<M>::Stop);
            }
        }
    }
}

/// After the turns `turns`, no actor that had a turn is scheduled any more, and
/// none that was not scheduled has become so.
pub proof fn lemma_turns<M>(state: RuntimeState<M>, turns: Seq<int>)
    requires
        state.wf(),
        state.all_told_to_stop(),
    ensures
        state.obey_in(turns).wf(),
        state.obey_in(turns).all_told_to_stop(),
        state.obey_in(turns).actors.len() == state.actors.len(),
        forall|i: int|
            0 <= i < state.actors.len() && (turns.contains(i) || !state.actors[i].phase.live())
                ==> !(#[trigger] state.obey_in(turns).actors[i]).phase.live(),
        forall|i: int|
            0 <= i < state.actors.len() ==> (#[trigger] state.obey_in(turns).actors[i]).failed
                == state.actors[i].failed,
    decreases turns.len(),
{
    if turns.len() > 0 {
        let earlier = turns.drop_last();
        lemma_turns(state, earlier);
        let before = state.obey_in(earlier);
        lemma_obey(before, turns.last());
        let after = before.obey(turns.last());
        assert forall|i: int|
            0 <= i < state.actors.len() && (turns.contains(i) || !state.actors[i].phase.live())
            implies !(#[trigger] after.actors[i]).phase.live() by {
            if turns.contains(i) && i != turns.last() {
                let k = choose|k: int| 0 <= k < turns.len() && turns[k] == i;
                assert(earlier[k] == i);
                assert(earlier.contains(i));
            }
            if i != turns.last() {
                assert(!before.actors[i].phase.live());
            }
        }
        assert forall|i: int| 0 <= i < state.actors.len() implies (#[trigger] after.actors[i]).failed
            == state.actors[i].failed by {
            assert(before.actors[i].failed == state.actors[i].failed);
        }
    }
}

/// Shutdown is complete: once shutdown was requested and every scheduled actor
/// has had a turn, in whatever order and however often, no scheduled actor is
/// left and `run_to_completion` has its answer.
pub proof fn lemma_shutdown_completes<M>(state: RuntimeState<M>, turns: Seq<int>)
    requires
        state.wf(),
        forall|i: int|
            0 <= i < state.actors.len() && (#[trigger] state.actors[i]).phase.live()
                ==> turns.contains(i),
    ensures
        state.shutdown().obey_in(turns).all_ended(),
        !(state.shutdown().obey_in(turns).completion() is Waiting),
{
    lemma_shutdown_comes_first(state);
    let stopping = state.shutdown();
    lemma_turns(stopping, turns);
    let after = stopping.obey_in(turns);
    assert forall|i: int| 0 <= i < after.actors.len() implies !(
    #[trigger] after.actors[i]).phase.live() by {
        if stopping.actors[i].phase.live() {
            assert(state.actors[i].phase.live());
            assert(turns.contains(i));
        }
    }
    lemma_completion(after);
}

/// The failure of one actor ends the system: when a scheduled actor has ended
/// on a fault, all others are told to stop, and once each of them has had a
/// turn `run_to_completion` reports a failure. It does not report it before.
pub proof fn lemma_failure_is_fatal<M>(state: RuntimeState<M>, address: int, turns: Seq<int>)
    requires
        state.wf(),
        state.terminated_refusal(address) is None,
        forall|i: int|
            0 <= i < state.actors.len() && i != address && (#[trigger] state.actors[i]).phase.live()
                ==> turns.contains(i),
    ensures
        state.terminated(address, Exit::Failed).stopping,
        state.terminated(address, Exit::Failed).all_told_to_stop(),
        !state.terminated(address, Exit::Failed).all_ended() ==> state.terminated(
            address,
            Exit::Failed,
        ).completion() is Waiting,
        state.terminated(address, Exit::Failed).obey_in(turns).completion() is Failed,
{
    let ended = state.with_actor(address, state.actors[address].terminated(Exit::Failed));
    assert(state.actors[address].wf());
    assert forall|i: int| 0 <= i < ended.actors.len() implies (#[trigger] ended.actors[i]).wf() by {
        assert(state.actors[i].wf());
    }
    lemma_shutdown_comes_first(ended);
    let failed = state.terminated(address, Exit::Failed);
    assert(failed == ended.shutdown());
    lemma_completion(failed);
    lemma_turns(failed, turns);
    let after = failed.obey_in(turns);
    assert forall|i: int| 0 <= i < after.actors.len() implies !(
    #[trigger] after.actors[i]).phase.live() by {
        if failed.actors[i].phase.live() {
            assert(i != address);
            assert(state.actors[i].phase.live());
            assert(turns.contains(i));
        }
    }
    lemma_completion(after);
    assert(failed.actors[address].failed);
    assert(after.actors[address].failed);
    assert(after.failed_below(after.actors.len() as int));
}

} // verus!
