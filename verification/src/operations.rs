//! The bookkeeping of long-running operations on child devices.
//!
//! An operation is known by its key from the command that starts it until its
//! outcome, whichever comes first: success, failure or timeout. While a key is
//! in flight no second operation may start under it.

use vstd::prelude::*;

verus! {

/// What an operation does with a configuration file.
#[derive(Debug, Clone, Copy, PartialEq, Eq, Hash, Structural)]
pub enum ConfigOperation {
    /// The device sends its file.
    Snapshot,
    /// The device receives a new file.
    Update,
}

/// The key of an operation: the device, the kind of operation and the file.
#[derive(Debug, PartialEq, Eq, Hash)]
pub struct ChildConfigOperationKey {
    pub child_id: String,
    pub operation_type: ConfigOperation,
    pub config_type: String,
}

/// A key as a mathematical value.
pub struct KeySpec {
    pub child_id: Seq<char>,
    pub operation_type: ConfigOperation,
    pub config_type: Seq<char>,
}

impl View for ChildConfigOperationKey {
    type V = KeySpec;

    open spec fn view(&self) -> KeySpec {
        KeySpec {
            child_id: self.child_id@,
            operation_type: self.operation_type,
            config_type: self.config_type@,
        }
    }
}

impl Clone for ChildConfigOperationKey {
    fn clone(&self) -> (copy: Self)
        ensures
            copy@ == self@,
    {
        ChildConfigOperationKey {
            child_id: self.child_id.clone(),
            operation_type: self.operation_type,
            config_type: self.config_type.clone(),
        }
    }
}

impl ChildConfigOperationKey {
    /// Whether the two keys name the same operation.
    pub fn same(&self, other: &ChildConfigOperationKey) -> (same: bool)
        ensures
            same == (self@ == other@),
    {
        let same_kind = match (self.operation_type, other.operation_type) {
            (ConfigOperation::Snapshot, ConfigOperation::Snapshot) => true,
            (ConfigOperation::Update, ConfigOperation::Update) => true,
            _ => false,
        };
        same_kind && self.child_id == other.child_id && self.config_type == other.config_type
    }
}

/// The place of `key` among `active`: the first index at which it stands, or
/// the length of `active` where it stands nowhere.
pub open spec fn position(active: Seq<KeySpec>, key: KeySpec) -> nat
    decreases active.len(),
{
    if active.len() == 0 || active[0] == key {
        0
    } else {
        1 + position(active.skip(1), key)
    }
}

/// Whether an operation is in flight under `key`.
pub open spec fn in_flight(active: Seq<KeySpec>, key: KeySpec) -> bool {
    position(active, key) < active.len()
}

/// The keys in flight after an operation was asked to start under `key`: it
/// starts unless one is in flight under that key already.
pub open spec fn started(active: Seq<KeySpec>, key: KeySpec) -> Seq<KeySpec> {
    if in_flight(active, key) {
        active
    } else {
        active.push(key)
    }
}

/// The keys in flight after the operation under `key` came to its outcome.
pub open spec fn ended(active: Seq<KeySpec>, key: KeySpec) -> Seq<KeySpec> {
    if in_flight(active, key) {
        active.remove(position(active, key) as int)
    } else {
        active
    }
}

/// Why an operation does not start.
#[derive(Debug, Clone, Copy, PartialEq, Eq, Structural)]
pub enum OperationError {
    /// An operation is in flight under the same key.
    AlreadyActive,
}

/// The operations in flight.
pub struct OperationTracker {
    active: Vec<ChildConfigOperationKey>,
}

impl View for OperationTracker {
    type V = Seq<KeySpec>;

    closed spec fn view(&self) -> Seq<KeySpec> {
        Seq::new(self.active@.len(), |i: int| self.active@[i]@)
    }
}

impl OperationTracker {
    #[verifier::type_invariant]
    spec fn one_per_key(self) -> bool {
        self@.no_duplicates()
    }

    /// A tracker with nothing in flight.
    pub fn new() -> (tracker: Self)
        ensures
            tracker@ == Seq::<KeySpec>::empty(),
    {
        let tracker = OperationTracker { active: Vec::new() };
        assert(tracker@ =~= Seq::<KeySpec>::empty());
        tracker
    }

    /// The index of `key` among the keys `active`, or their number where it is
    /// not among them.
    fn find(active: &Vec<ChildConfigOperationKey>, key: &ChildConfigOperationKey) -> (place: usize)
        ensures
            place == position(Seq::new(active@.len(), |i: int| active@[i]@), key@),
            place <= active@.len(),
    {
        let ghost keys = Seq::new(active@.len(), |i: int| active@[i]@);
        let mut place: usize = 0;
        assert(keys.skip(0) =~= keys);
        while place < active.len() && !active[place].same(key)
            invariant
                place <= active.len(),
                keys == Seq::new(active@.len(), |i: int| active@[i]@),
                position(keys, key@) == place + position(keys.skip(place as int), key@),
            decreases active.len() - place,
        {
            assert(keys.skip(place as int).skip(1) =~= keys.skip(place + 1));
            assert(keys.skip(place as int)[0] == active@[place as int]@);
            place = place + 1;
        }
        proof {
            if place < active.len() {
                assert(keys.skip(place as int)[0] == active@[place as int]@);
            }
        }
        place
    }

    /// The number of operations in flight.
    pub fn len(&self) -> (count: usize)
        ensures
            count == self@.len(),
            self@.no_duplicates(),
    {
        proof {
            use_type_invariant(self);
        }
        self.active.len()
    }

    /// Whether an operation is in flight under `key`.
    pub fn is_active(&self, key: &ChildConfigOperationKey) -> (active: bool)
        ensures
            active == in_flight(self@, key@),
    {
        Self::find(&self.active, key) < self.active.len()
    }

    /// Starts an operation under `key`, unless one is in flight under it: then
    /// nothing changes and the second one is refused.
    pub fn begin(&mut self, key: ChildConfigOperationKey) -> (result: Result<(), OperationError>)
        ensures
            final(self)@ == started(old(self)@, key@),
            final(self)@.no_duplicates(),
            result is Err <==> in_flight(old(self)@, key@),
    {
        proof {
            use_type_invariant(&*self);
            lemma_started(self@, key@);
        }
        if Self::find(&self.active, &key) < self.active.len() {
            return Err(OperationError::AlreadyActive);
        }
        let mut active: Vec<ChildConfigOperationKey> = Vec::new();
        std::mem::swap(&mut self.active, &mut active);
        active.push(key);
        assert(Seq::new(active@.len(), |i: int| active@[i]@) =~= started(old(self)@, key@));
        self.active = active;
        Ok(())
    }

    /// Ends the operation under `key`. The answer says whether one was in
    /// flight: only then is there an outcome to report.
    pub fn end(&mut self, key: &ChildConfigOperationKey) -> (was_active: bool)
        ensures
            final(self)@ == ended(old(self)@, key@),
            final(self)@.no_duplicates(),
            was_active == in_flight(old(self)@, key@),
    {
        proof {
            use_type_invariant(&*self);
            lemma_ended(self@, key@);
        }
        let place = Self::find(&self.active, key);
        if place >= self.active.len() {
            return false;
        }
        let mut active: Vec<ChildConfigOperationKey> = Vec::new();
        std::mem::swap(&mut self.active, &mut active);
        let _ = active.remove(place);
        assert(Seq::new(active@.len(), |i: int| active@[i]@) =~= ended(old(self)@, key@));
        self.active = active;
        true
    }
}

/// What `position` finds: it stays within the sequence, no earlier key is the
/// one looked for, and the key at it, if there is one, is.
pub proof fn lemma_position(active: Seq<KeySpec>, key: KeySpec)
    ensures
        position(active, key) <= active.len(),
        forall|i: int| 0 <= i < position(active, key) ==> active[i] != key,
        in_flight(active, key) ==> active[position(active, key) as int] == key,
        in_flight(active, key) <==> active.contains(key),
    decreases active.len(),
{
    if active.len() == 0 || active[0] == key {
        if active.len() > 0 {
            assert(active.contains(key));
        }
    } else {
        let rest = active.skip(1);
        lemma_position(rest, key);
        assert forall|i: int| 0 <= i < position(active, key) implies active[i] != key by {
            if i > 0 {
                assert(active[i] == rest[i - 1]);
            }
        }
        if in_flight(active, key) {
            assert(active[position(active, key) as int] == rest[position(rest, key) as int]);
            assert(active.contains(key));
        }
        if active.contains(key) {
            let i = choose|i: int| 0 <= i < active.len() && active[i] == key;
            assert(rest[i - 1] == key);
            assert(rest.contains(key));
        }
    }
}

/// A start keeps the keys in flight distinct, puts the key in flight, and
/// touches no other key.
pub proof fn lemma_started(active: Seq<KeySpec>, key: KeySpec)
    requires
        active.no_duplicates(),
    ensures
        started(active, key).no_duplicates(),
        in_flight(started(active, key), key),
        forall|other: KeySpec|
            other != key ==> (in_flight(started(active, key), other) <==> in_flight(active, other)),
{
    lemma_position(active, key);
    let after = started(active, key);
    lemma_position(after, key);
    if !in_flight(active, key) {
        assert(after[active.len() as int] == key);
        assert(after.contains(key));
    }
    assert forall|other: KeySpec| other != key implies (in_flight(after, other) <==> in_flight(
        active,
        other,
    )) by {
        lemma_position(active, other);
        lemma_position(after, other);
        if active.contains(other) {
            let i = choose|i: int| 0 <= i < active.len() && active[i] == other;
            assert(after[i] == other);
        }
        if after.contains(other) {
            let i = choose|i: int| 0 <= i < after.len() && after[i] == other;
            assert(active[i] == other);
        }
    }
}

/// An end keeps the keys in flight distinct, takes the key out of flight for
/// good, and touches no other key.
pub proof fn lemma_ended(active: Seq<KeySpec>, key: KeySpec)
    requires
        active.no_duplicates(),
    ensures
        ended(active, key).no_duplicates(),
        !in_flight(ended(active, key), key),
        ended(ended(active, key), key) == ended(active, key),
        forall|other: KeySpec|
            other != key ==> (in_flight(ended(active, key), other) <==> in_flight(active, other)),
{
    lemma_position(active, key);
    let after = ended(active, key);
    lemma_position(after, key);
    let place = position(active, key) as int;
    if in_flight(active, key) {
        if after.contains(key) {
            let i = choose|i: int| 0 <= i < after.len() && after[i] == key;
            if i < place {
                assert(after[i] == active[i]);
            } else {
                assert(after[i] == active[i + 1]);
            }
        }
    }
    assert forall|other: KeySpec| other != key implies (in_flight(after, other) <==> in_flight(
        active,
        other,
    )) by {
        lemma_position(active, other);
        lemma_position(after, other);
        if in_flight(active, key) {
            if active.contains(other) {
                let i = choose|i: int| 0 <= i < active.len() && active[i] == other;
                if i < place {
                    assert(after[i] == other);
                } else {
                    assert(after[i - 1] == other);
                }
            }
            if after.contains(other) {
                let i = choose|i: int| 0 <= i < after.len() && after[i] == other;
                if i < place {
                    assert(active[i] == other);
                } else {
                    assert(active[i + 1] == other);
                }
            }
        }
    }
}

} // verus!
