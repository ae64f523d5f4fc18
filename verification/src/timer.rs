//! The deadline service: it takes registrations of a key with a duration and
//! reports each key once, when its deadline has come.
//!
//! Each registration names the handle of whoever made it: that is where the
//! notice of its timeout goes.
//!
//! Time is a count of units since the service started. The service never
//! reads a clock itself: whoever drives it says how far time has advanced and
//! is handed the timeouts that are due, earliest deadline first.

use crate::link::DynSender;
use std::collections::VecDeque;
use vstd::prelude::*;

verus! {

/// The request to be told about `key` once `duration` units have passed.
#[derive(Debug, Clone, PartialEq, Eq)]
pub struct SetTimeout<K> {
    pub duration: u64,
    pub key: K,
}

/// The notice that the deadline registered for `key` has come.
#[derive(Debug, Clone, PartialEq, Eq)]
pub struct Timeout<K> {
    pub key: K,
}

/// A timeout on its way to the mailbox of the one who registered for it.
#[derive(Debug, Clone, PartialEq, Eq)]
pub struct Notice<K> {
    /// The handle of the registrant.
    pub registrant: DynSender,
    pub timeout: Timeout<K>,
}

/// A registration that waits for its deadline.
#[derive(Debug, Clone, PartialEq, Eq)]
pub struct Registration<K> {
    /// The time at which the timeout is due.
    pub deadline: u64,
    pub key: K,
    /// The handle of the one who registered.
    pub registrant: DynSender,
}

/// Why a registration is refused.
#[derive(Debug, Clone, Copy, PartialEq, Eq, Structural)]
pub enum TimerError {
    /// The deadline lies beyond the last time that the service can be told of:
    /// it could never come.
    DeadlineOutOfRange,
}

/// Whether the deadlines of `pending` never decrease from front to back.
pub open spec fn by_deadline<K>(pending: Seq<Registration<K>>) -> bool {
    forall|i: int, j: int|
        0 <= i <= j < pending.len() ==> pending[i].deadline <= pending[j].deadline
}

/// The length of the longest front part of `pending` whose deadlines are all at
/// or before `at`. Where `pending` is ordered by deadline, these are all the
/// registrations due at `at`.
pub open spec fn due_count<K>(pending: Seq<Registration<K>>, at: u64) -> nat
    decreases pending.len(),
{
    if pending.len() == 0 || pending[0].deadline > at {
        0
    } else {
        1 + due_count(pending.skip(1), at)
    }
}

/// The notices for the registrations `due`, in their order: each carries the
/// key of its registration to its registrant.
pub open spec fn notices<K>(due: Seq<Registration<K>>) -> Seq<Notice<K>> {
    Seq::new(
        due.len(),
        |i: int| Notice { registrant: due[i].registrant, timeout: Timeout { key: due[i].key } },
    )
}

/// What the service is, as a mathematical value.
pub struct TimerState<K> {
    /// The time that the service has been told of.
    pub now: u64,
    /// The registrations that wait, earliest deadline first; among equal
    /// deadlines the earlier registration first.
    pub pending: Seq<Registration<K>>,
}

impl<K> TimerState<K> {
    /// The time after the service was told that it is `to`: time never runs backwards.
    pub open spec fn clock(self, to: u64) -> u64 {
        if to > self.now {
            to
        } else {
            self.now
        }
    }

    /// Whether a deadline `duration` units from now is a time that the service
    /// can be told of.
    pub open spec fn in_range(self, duration: u64) -> bool {
        self.now + duration <= u64::MAX
    }

    /// The state after `registrant` registered `key` for `duration` units from
    /// now: the registration stands behind all those that are due no later
    /// than itself. A deadline out of range changes nothing.
    pub open spec fn set_timeout(self, registrant: DynSender, key: K, duration: u64) -> Self {
        if self.in_range(duration) {
            let deadline = (self.now + duration) as u64;
            TimerState {
                pending: self.pending.insert(
                    due_count(self.pending, deadline) as int,
                    Registration { deadline, key, registrant },
                ),
                ..self
            }
        } else {
            self
        }
    }

    /// The registrations that are due when the time is `to`.
    pub open spec fn due(self, to: u64) -> Seq<Registration<K>> {
        self.pending.take(due_count(self.pending, self.clock(to)) as int)
    }

    /// The notices handed out when the time is `to`.
    pub open spec fn fired(self, to: u64) -> Seq<Notice<K>> {
        notices(self.due(to))
    }

    /// The state after the time advanced to `to` and the due registrations left.
    pub open spec fn advance(self, to: u64) -> Self {
        TimerState {
            now: self.clock(to),
            pending: self.pending.skip(due_count(self.pending, self.clock(to)) as int),
        }
    }
}

/// The deadline service.
pub struct TimerService<K> {
    now: u64,
    pending: VecDeque<Registration<K>>,
}

impl<K> View for TimerService<K> {
    type V = TimerState<K>;

    closed spec fn view(&self) -> TimerState<K> {
        TimerState { now: self.now, pending: self.pending@ }
    }
}

impl<K> TimerService<K> {
    #[verifier::type_invariant]
    spec fn ordered(self) -> bool {
        by_deadline(self.pending@)
    }

    /// A service at time 0 with no registration.
    pub fn new() -> (service: Self)
        ensures
            service@.now == 0,
            service@.pending == Seq::<Registration<K>>::empty(),
    {
        TimerService { now: 0, pending: VecDeque::new() }
    }

    /// The time that the service has been told of.
    pub fn now(&self) -> (now: u64)
        ensures
            now == self@.now,
    {
        self.now
    }

    /// The number of registrations that wait for their deadline.
    pub fn pending_count(&self) -> (count: usize)
        ensures
            count == self@.pending.len(),
    {
        self.pending.len()
    }

    /// The earliest deadline among the waiting registrations, if any waits.
    pub fn next_deadline(&self) -> (deadline: Option<u64>)
        ensures
            by_deadline(self@.pending),
            deadline == if self@.pending.len() == 0 {
                None
            } else {
                Some(self@.pending[0].deadline)
            },
            forall|i: int|
                0 <= i < self@.pending.len() ==> self@.pending[0].deadline
                    <= #[trigger] self@.pending[i].deadline,
    {
        proof {
            use_type_invariant(self);
        }
        if self.pending.len() == 0 {
            None
        } else {
            Some(self.pending[0].deadline)
        }
    }

    /// Registers `key` to be reported to `registrant` once `duration` units
    /// have passed from now. A deadline that no time can reach is refused.
    ///
    /// Registrations do not replace one another: a key registered twice is
    /// reported twice.
    pub fn set_timeout(&mut self, registrant: DynSender, key: K, duration: u64) -> (result: Result<
        (),
        TimerError,
    >)
        ensures
            final(self)@ == old(self)@.set_timeout(registrant, key, duration),
            by_deadline(final(self)@.pending),
            result is Ok <==> old(self)@.in_range(duration),
    {
        proof {
            use_type_invariant(&*self);
        }
        if duration > u64::MAX - self.now {
            return Err(TimerError::DeadlineOutOfRange);
        }
        let deadline: u64 = self.now + duration;
        let mut pending: VecDeque<Registration<K>> = VecDeque::new();
        std::mem::swap(&mut self.pending, &mut pending);
        let mut place: usize = 0;
        assert(pending@.skip(0) =~= pending@);
        while place < pending.len() && pending[place].deadline <= deadline
            invariant
                place <= pending.len(),
                forall|i: int| 0 <= i < place ==> pending@[i].deadline <= deadline,
                due_count(pending@, deadline) == place + due_count(
                    pending@.skip(place as int),
                    deadline,
                ),
            decreases pending.len() - place,
        {
            assert(pending@.skip(place as int).skip(1) =~= pending@.skip(place + 1));
            place = place + 1;
        }
        proof {
            lemma_insert_keeps_order(
                pending@,
                Registration { deadline, key, registrant },
                place as int,
            );
        }
        pending.insert(place, Registration { deadline, key, registrant });
        self.pending = pending;
        Ok(())
    }

    /// Tells the service that the time is `to` and takes the timeouts that are
    /// due then: those whose deadline is at or before `to`, earliest deadline
    /// first, each addressed to its registrant. A time before the one already
    /// known changes nothing.
    pub fn advance(&mut self, to: u64) -> (fired: Vec<Notice<K>>)
        ensures
            final(self)@ == old(self)@.advance(to),
            fired@ == old(self)@.fired(to),
            by_deadline(final(self)@.pending),
    {
        proof {
            use_type_invariant(&*self);
        }
        if to > self.now {
            self.now = to;
        }
        let now = self.now;
        let mut pending: VecDeque<Registration<K>> = VecDeque::new();
        std::mem::swap(&mut self.pending, &mut pending);
        let mut fired: Vec<Notice<K>> = Vec::new();
        let ghost start = pending@;
        assert(pending@.skip(0) =~= pending@);
        while pending.len() > 0 && pending[0].deadline <= now
            invariant
                by_deadline(pending@),
                fired@.len() <= start.len(),
                pending@ == start.skip(fired@.len() as int),
                fired@ == notices(start.take(fired@.len() as int)),
                due_count(start, now) == fired@.len() + due_count(pending@, now),
            decreases pending.len(),
        {
            let ghost before = pending@;
            let ghost count = fired@.len() as int;
            let next = pending.pop_front();
            match next {
                Some(registration) => {
                    fired.push(
                        Notice {
                            registrant: registration.registrant,
                            timeout: Timeout { key: registration.key },
                        },
                    );
                    proof {
                        assert(pending@ =~= before.skip(1));
                        assert(before.skip(1) =~= start.skip(count + 1));
                        assert(registration == start[count]);
                        assert(fired@ =~= notices(start.take(count + 1)));
                        assert forall|i: int, j: int| 0 <= i <= j < pending@.len() implies pending@[i].deadline
                            <= pending@[j].deadline by {
                            assert(before[i + 1].deadline <= before[j + 1].deadline);
                        }
                    }
                },
                None => {},
            }
        }
        proof {
            assert(due_count(pending@, now) == 0);
        }
        self.pending = pending;
        fired
    }
}

/// A registration put where `set_timeout` puts it leaves the deadlines in order.
pub proof fn lemma_insert_keeps_order<K>(
    pending: Seq<Registration<K>>,
    registration: Registration<K>,
    place: int,
)
    requires
        by_deadline(pending),
        0 <= place <= pending.len(),
        forall|i: int| 0 <= i < place ==> pending[i].deadline <= registration.deadline,
        place < pending.len() ==> pending[place].deadline > registration.deadline,
    ensures
        by_deadline(pending.insert(place, registration)),
{
    let after = pending.insert(place, registration);
    assert forall|i: int, j: int| 0 <= i <= j < after.len() implies after[i].deadline
        <= after[j].deadline by {
        if j < place {
            assert(after[i] == pending[i] && after[j] == pending[j]);
        } else if j == place {
            if i < place {
                assert(after[i] == pending[i]);
            }
        } else {
            assert(after[j] == pending[j - 1]);
            assert(pending[place].deadline <= pending[j - 1].deadline);
            if i < place {
                assert(after[i] == pending[i]);
                assert(pending[i].deadline <= pending[j - 1].deadline);
            } else if i > place {
                assert(after[i] == pending[i - 1]);
                assert(pending[i - 1].deadline <= pending[j - 1].deadline);
            }
        }
    }
}

/// What `due_count` counts: it stays within the sequence, every registration
/// before it is due at `at`, and the one at it, if there is one, is not.
pub proof fn lemma_due_count<K>(pending: Seq<Registration<K>>, at: u64)
    ensures
        due_count(pending, at) <= pending.len(),
        forall|i: int| 0 <= i < due_count(pending, at) ==> (#[trigger] pending[i]).deadline <= at,
        due_count(pending, at) < pending.len() ==> pending[due_count(pending, at) as int].deadline
            > at,
    decreases pending.len(),
{
    if pending.len() == 0 || pending[0].deadline > at {
    } else {
        let rest = pending.skip(1);
        lemma_due_count(rest, at);
        assert forall|i: int| 0 <= i < due_count(pending, at) implies (#[trigger] pending[i]).deadline
            <= at by {
            if i > 0 {
                assert(pending[i] == rest[i - 1]);
            }
        }
        if due_count(pending, at) < pending.len() {
            assert(pending[due_count(pending, at) as int] == rest[due_count(rest, at) as int]);
        }
    }
}

/// Timeouts come by deadline, never early and never late: when the time
/// advances to `to`, the registrations handed out are exactly those whose
/// deadline is at or before the new time, ordered by deadline, and those that
/// stay are exactly the later ones, still in order.
pub proof fn lemma_fires_by_deadline<K>(state: TimerState<K>, to: u64)
    requires
        by_deadline(state.pending),
    ensures
        state.due(to) + state.advance(to).pending == state.pending,
        by_deadline(state.due(to)),
        by_deadline(state.advance(to).pending),
        forall|i: int|
            0 <= i < state.due(to).len() ==> (#[trigger] state.due(to)[i]).deadline <= state.clock(
                to,
            ),
        forall|i: int|
            0 <= i < state.advance(to).pending.len() ==> (#[trigger] state.advance(
                to,
            ).pending[i]).deadline > state.clock(to),
        state.fired(to).len() == state.due(to).len(),
        forall|i: int|
            0 <= i < state.due(to).len() ==> (#[trigger] state.fired(to)[i]) == (Notice {
                registrant: state.due(to)[i].registrant,
                timeout: Timeout { key: state.due(to)[i].key },
            }),
{
    let clock = state.clock(to);
    let count = due_count(state.pending, clock) as int;
    lemma_due_count(state.pending, clock);
    assert(state.due(to) + state.advance(to).pending =~= state.pending);
    assert forall|i: int| 0 <= i < state.advance(to).pending.len() implies (#[trigger] state.advance(
        to,
    ).pending[i]).deadline > clock by {
        assert(state.advance(to).pending[i] == state.pending[count + i]);
        assert(state.pending[count].deadline <= state.pending[count + i].deadline);
    }
}

/// Each registration is reported exactly once: when the time advances, every
/// waiting registration either leaves as due or stays, as often as it was
/// registered; and what has left is not reported again, whatever the time
/// advances to next.
pub proof fn lemma_fires_once<K>(state: TimerState<K>, first: u64, then: u64)
    requires
        by_deadline(state.pending),
        first <= then,
    ensures
        state.due(first).to_multiset().add(state.advance(first).pending.to_multiset())
            == state.pending.to_multiset(),
        state.advance(first).advance(then) == state.advance(then),
        state.due(first) + state.advance(first).due(then) == state.due(then),
{
    lemma_fires_by_deadline(state, first);
    vstd::seq_lib::lemma_multiset_commutative(state.due(first), state.advance(first).pending);
    let c1 = state.clock(first);
    let c2 = state.clock(then);
    let middle = state.advance(first);
    assert(middle.clock(then) == c2);
    lemma_due_count_split(state.pending, c1, c2);
    let k1 = due_count(state.pending, c1) as int;
    let k2 = due_count(middle.pending, c2) as int;
    lemma_due_count(state.pending, c1);
    lemma_due_count(middle.pending, c2);
    assert(state.pending.skip(k1).skip(k2) =~= state.pending.skip(k1 + k2));
    assert(state.pending.take(k1) + state.pending.skip(k1).take(k2) =~= state.pending.take(k1 + k2));
}

/// Counting what is due at a later time can be done in two steps: first what is
/// due at an earlier time, then what of the rest is due at the later one.
pub proof fn lemma_due_count_split<K>(pending: Seq<Registration<K>>, first: u64, then: u64)
    requires
        first <= then,
    ensures
        due_count(pending, then) == due_count(pending, first) + due_count(
            pending.skip(due_count(pending, first) as int),
            then,
        ),
    decreases pending.len(),
{
    if pending.len() == 0 || pending[0].deadline > first {
        assert(pending.skip(0) =~= pending);
    } else {
        let rest = pending.skip(1);
        lemma_due_count_split(rest, first, then);
        lemma_due_count(rest, first);
        assert(rest.skip(due_count(rest, first) as int) =~= pending.skip(
            due_count(pending, first) as int,
        ));
    }
}

/// How to recognise the count of what is due: a front part of `pending` whose
/// deadlines are all at or before `at`, followed by a later one or by nothing,
/// is what `due_count` counts.
pub proof fn lemma_due_count_is<K>(pending: Seq<Registration<K>>, at: u64, count: int)
    requires
        0 <= count <= pending.len(),
        forall|i: int| 0 <= i < count ==> (#[trigger] pending[i]).deadline <= at,
        count < pending.len() ==> pending[count].deadline > at,
    ensures
        due_count(pending, at) == count,
    decreases count,
{
    if count > 0 {
        let rest = pending.skip(1);
        assert(pending[0].deadline <= at);
        assert forall|i: int| 0 <= i < count - 1 implies (#[trigger] rest[i]).deadline <= at by {
            assert(rest[i] == pending[i + 1]);
        }
        lemma_due_count_is(rest, at, count - 1);
    }
}

/// A timeout reaches the one who registered for it, once and not before its
/// deadline. Compared with the service as it would be without the
/// registration: as long as the time is before the deadline, what is handed
/// out is the same and the registration waits; from the deadline on, what is
/// handed out has the registration in addition, with its key and registrant,
/// and what stays is the same, so that it is not handed out again.
pub proof fn lemma_timeout_reaches_registrant<K>(
    state: TimerState<K>,
    registrant: DynSender,
    key: K,
    duration: u64,
    to: u64,
)
    requires
        by_deadline(state.pending),
        state.in_range(duration),
    ensures
        ({
            let after = state.set_timeout(registrant, key, duration);
            let deadline = (state.now + duration) as u64;
            let registration = Registration { deadline, key, registrant };
            let place = due_count(state.pending, deadline) as int;
            let due = due_count(state.pending, state.clock(to)) as int;
            &&& by_deadline(after.pending)
            &&& after.clock(to) == state.clock(to)
            &&& state.clock(to) < deadline ==> {
                &&& due <= place
                &&& after.due(to) == state.due(to)
                &&& after.advance(to).pending == state.advance(to).pending.insert(
                    place - due,
                    registration,
                )
            }
            &&& state.clock(to) >= deadline ==> {
                &&& place <= due
                &&& after.due(to) == state.due(to).insert(place, registration)
                &&& after.fired(to)[place] == (Notice { registrant, timeout: Timeout { key } })
                &&& after.advance(to).pending == state.advance(to).pending
            }
        }),
{
    let after = state.set_timeout(registrant, key, duration);
    let deadline = (state.now + duration) as u64;
    let registration = Registration { deadline, key, registrant };
    let place = due_count(state.pending, deadline) as int;
    let clock = state.clock(to);
    let due = due_count(state.pending, clock) as int;
    let pending = state.pending;
    lemma_due_count(pending, deadline);
    lemma_due_count(pending, clock);
    lemma_insert_keeps_order(pending, registration, place);
    assert(after.pending == pending.insert(place, registration));
    if clock < deadline {
        lemma_due_count_split(pending, clock, deadline);
        assert forall|i: int| 0 <= i < due implies (#[trigger] after.pending[i]).deadline <= clock by {
            assert(after.pending[i] == pending[i]);
        }
        if due < place {
            assert(after.pending[due] == pending[due]);
        } else {
            assert(after.pending[due] == registration);
        }
        lemma_due_count_is(after.pending, clock, due);
        assert(after.pending.take(due) =~= pending.take(due));
        assert(after.pending.skip(due) =~= pending.skip(due).insert(place - due, registration));
    } else {
        lemma_due_count_split(pending, deadline, clock);
        assert forall|i: int| 0 <= i < due + 1 implies (#[trigger] after.pending[i]).deadline
            <= clock by {
            if i < place {
                assert(after.pending[i] == pending[i]);
            } else if i > place {
                assert(after.pending[i] == pending[i - 1]);
            }
        }
        if due + 1 < after.pending.len() {
            assert(after.pending[due + 1] == pending[due]);
        }
        lemma_due_count_is(after.pending, clock, due + 1);
        assert(after.pending.take(due + 1) =~= pending.take(due).insert(place, registration));
        assert(after.pending.skip(due + 1) =~= pending.skip(due));
        assert(after.due(to)[place] == registration);
    }
}

} // verus!
