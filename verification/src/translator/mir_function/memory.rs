//! Representation of the local memory of the function.
//!
//! The memory records which locations of the function hold a mutex, a lock guard,
//! a join handle or a condition variable. Each of the four is a table of links from
//! a location to a handle, in the order in which the locations were first linked.
//! No location has two links in one table. A mutex and the guard that locks it
//! live side by side, so the guards have a table of their own.

use crate::control_flow::Location;
use crate::translator::sync::condvar_manager::CondvarRef;
use crate::translator::sync::mutex_manager::MutexRef;
use crate::translator::sync::thread_manager::ThreadRef;
use vstd::prelude::*;

verus! {

/// The position of the link of a location in a table, if it has one.
pub open spec fn position<H>(entries: Seq<(Location, H)>, location: Location) -> Option<int>
    decreases entries.len(),
{
    if entries.len() == 0 {
        None
    } else if entries.last().0 == location {
        Some(entries.len() - 1)
    } else {
        position(entries.drop_last(), location)
    }
}

/// The handle that a location is linked to in a table, if it is linked.
pub open spec fn lookup<H>(entries: Seq<(Location, H)>, location: Location) -> Option<H> {
    match position(entries, location) {
        Some(i) => Some(entries[i].1),
        None => None,
    }
}

/// The table after a location is linked to a handle: the link of the location is
/// replaced where it has one, and added at the end where it has none.
pub open spec fn link<H>(entries: Seq<(Location, H)>, location: Location, handle: H) -> Seq<
    (Location, H),
> {
    match position(entries, location) {
        Some(i) => entries.update(i, (location, handle)),
        None => entries.push((location, handle)),
    }
}

/// The table after a location is linked to the handle of another location, which
/// is linked.
pub open spec fn link_alias<H>(
    entries: Seq<(Location, H)>,
    target: Location,
    source: Location,
) -> Seq<(Location, H)> {
    link(entries, target, lookup(entries, source).unwrap())
}

/// The handles of all locations in a local variable, in the order of the table.
pub open spec fn handles_by_root<H>(entries: Seq<(Location, H)>, local: usize) -> Seq<H>
    decreases entries.len(),
{
    if entries.len() == 0 {
        Seq::empty()
    } else if entries.last().0.local == local {
        handles_by_root(entries.drop_last(), local).push(entries.last().1)
    } else {
        handles_by_root(entries.drop_last(), local)
    }
}

/// The table without the links of the locations in a local variable.
pub open spec fn without_root<H>(entries: Seq<(Location, H)>, local: usize) -> Seq<
    (Location, H),
>
    decreases entries.len(),
{
    if entries.len() == 0 {
        Seq::empty()
    } else if entries.last().0.local == local {
        without_root(entries.drop_last(), local)
    } else {
        without_root(entries.drop_last(), local).push(entries.last())
    }
}

/// No location has two links in the table.
pub open spec fn distinct_locations<H>(entries: Seq<(Location, H)>) -> bool {
    forall|i: int, j: int| 0 <= i < j < entries.len() ==> entries[i].0 != entries[j].0
}

/// A location without a position in the table has no link in it.
pub proof fn lemma_position_absent<H>(entries: Seq<(Location, H)>, location: Location)
    requires
        position(entries, location).is_none(),
    ensures
        forall|i: int| 0 <= i < entries.len() ==> entries[i].0 != location,
    decreases entries.len(),
{
    if entries.len() > 0 {
        lemma_position_absent(entries.drop_last(), location);
        assert forall|i: int| 0 <= i < entries.len() implies entries[i].0 != location by {
            if i < entries.len() - 1 {
                assert(entries.drop_last()[i] == entries[i]);
            }
        }
    }
}

/// Linking a location keeps the locations of the table apart.
pub proof fn lemma_link_keeps_distinct<H>(
    entries: Seq<(Location, H)>,
    location: Location,
    handle: H,
)
    requires
        distinct_locations(entries),
    ensures
        distinct_locations(link(entries, location, handle)),
{
    lemma_position_found(entries, location);
    if position(entries, location).is_none() {
        lemma_position_absent(entries, location);
    }
}

/// The table without the links of a local variable holds only links of the table,
/// none of them in the local variable, and keeps the locations apart.
pub proof fn lemma_without_root_keeps_distinct<H>(entries: Seq<(Location, H)>, local: usize)
    requires
        distinct_locations(entries),
    ensures
        distinct_locations(without_root(entries, local)),
        forall|k: int|
            0 <= k < without_root(entries, local).len() ==> entries.contains(
                #[trigger] without_root(entries, local)[k],
            ) && without_root(entries, local)[k].0.local != local,
    decreases entries.len(),
{
    if entries.len() > 0 {
        let rest = entries.drop_last();
        assert forall|i: int, j: int| 0 <= i < j < rest.len() implies rest[i].0 != rest[j].0 by {
            assert(rest[i] == entries[i] && rest[j] == entries[j]);
        }
        lemma_without_root_keeps_distinct(rest, local);
        let kept = without_root(rest, local);
        assert forall|k: int| 0 <= k < kept.len() implies entries.contains(#[trigger] kept[k])
            && kept[k].0 != entries.last().0 by {
            assert(rest.contains(kept[k]));
            let j = choose|j: int| 0 <= j < rest.len() && rest[j] == kept[k];
            assert(entries[j] == kept[k]);
        }
        if entries.last().0.local != local {
            let all = without_root(entries, local);
            assert(all == kept.push(entries.last()));
            assert(entries[entries.len() - 1] == entries.last());
            assert forall|k: int| 0 <= k < all.len() implies entries.contains(
                #[trigger] all[k],
            ) && all[k].0.local != local by {
                if k < kept.len() {
                    assert(all[k] == kept[k]);
                }
            }
        }
    }
}

/// The position of the link of a location depends only on the locations of the
/// table, not on the handles.
pub proof fn lemma_position_by_locations<H>(
    entries: Seq<(Location, H)>,
    others: Seq<(Location, H)>,
    location: Location,
)
    requires
        entries.len() == others.len(),
        forall|i: int| 0 <= i < entries.len() ==> entries[i].0 == others[i].0,
    ensures
        position(entries, location) == position(others, location),
    decreases entries.len(),
{
    if entries.len() > 0 {
        if entries.last().0 != location {
            lemma_position_by_locations(entries.drop_last(), others.drop_last(), location);
        }
    }
}

/// The position of the link of a location is a position of the table, and the link
/// at this position is that of the location.
pub proof fn lemma_position_found<H>(entries: Seq<(Location, H)>, location: Location)
    ensures
        position(entries, location) matches Some(i) ==> 0 <= i < entries.len() && entries[i].0
            == location,
    decreases entries.len(),
{
    if entries.len() > 0 && entries.last().0 != location {
        lemma_position_found(entries.drop_last(), location);
    }
}

/// After a location is linked to a handle, the location is linked to this handle,
/// and every other location is linked to what it was linked to before.
pub proof fn lemma_link_then_lookup<H>(
    entries: Seq<(Location, H)>,
    location: Location,
    handle: H,
    other: Location,
)
    ensures
        lookup(link(entries, location, handle), location) == Some(handle),
        other != location ==> lookup(link(entries, location, handle), other) == lookup(
            entries,
            other,
        ),
{
    lemma_position_found(entries, location);
    lemma_position_found(entries, other);
    match position(entries, location) {
        Some(i) => {
            let linked = entries.update(i, (location, handle));
            lemma_position_by_locations(entries, linked, location);
            lemma_position_by_locations(entries, linked, other);
        },
        None => {
            let linked = entries.push((location, handle));
            assert(linked.drop_last() =~= entries);
        },
    }
}

/// After a location has become an alias of a linked location, both are linked to
/// the same handle.
pub proof fn lemma_alias_shares_handle<H>(
    entries: Seq<(Location, H)>,
    target: Location,
    source: Location,
)
    requires
        lookup(entries, source).is_some(),
    ensures
        lookup(link_alias(entries, target, source), target) == lookup(entries, source),
        lookup(link_alias(entries, target, source), source) == lookup(entries, source),
{
    lemma_link_then_lookup(entries, target, lookup(entries, source).unwrap(), source);
}

/// What linking a location did to the table.
#[derive(Clone, Copy, PartialEq, Eq, Structural, Debug)]
pub enum LinkOutcome {
    /// The location had no link.
    Linked,
    /// The location was linked to the same handle already.
    LinkedAgain,
    /// The location was linked to another handle, which the new one replaces.
    Relinked,
}

/// What linking a location to a handle does, given the handle that the location
/// was linked to before.
pub open spec fn link_outcome<H>(previous: Option<H>, handle: H) -> LinkOutcome {
    match previous {
        None => LinkOutcome::Linked,
        Some(old_handle) => if old_handle == handle {
            LinkOutcome::LinkedAgain
        } else {
            LinkOutcome::Relinked
        },
    }
}

/// The mathematical model of a [`Memory`]: its four tables.
pub struct MemoryView {
    pub mutexes: Seq<(Location, MutexRef)>,
    pub lock_guards: Seq<(Location, MutexRef)>,
    pub join_handles: Seq<(Location, ThreadRef)>,
    pub condvars: Seq<(Location, CondvarRef)>,
}

impl MemoryView {
    /// No location has two links in one table.
    pub open spec fn wf(self) -> bool {
        &&& distinct_locations(self.mutexes)
        &&& distinct_locations(self.lock_guards)
        &&& distinct_locations(self.join_handles)
        &&& distinct_locations(self.condvars)
    }

    /// The memory without links.
    pub open spec fn empty() -> MemoryView {
        MemoryView {
            mutexes: Seq::empty(),
            lock_guards: Seq::empty(),
            join_handles: Seq::empty(),
            condvars: Seq::empty(),
        }
    }

    pub open spec fn link_mutex(self, place: Location, mutex_ref: MutexRef) -> MemoryView {
        MemoryView { mutexes: link(self.mutexes, place, mutex_ref), ..self }
    }

    pub open spec fn link_lock_guard(self, place: Location, mutex_ref: MutexRef) -> MemoryView {
        MemoryView { lock_guards: link(self.lock_guards, place, mutex_ref), ..self }
    }

    pub open spec fn link_join_handle(self, place: Location, thread_ref: ThreadRef) -> MemoryView {
        MemoryView { join_handles: link(self.join_handles, place, thread_ref), ..self }
    }

    pub open spec fn link_condvar(self, place: Location, condvar_ref: CondvarRef) -> MemoryView {
        MemoryView { condvars: link(self.condvars, place, condvar_ref), ..self }
    }

    /// The memory after the target has received every handle that the source is
    /// linked to.
    pub open spec fn alias(self, target: Location, source: Location) -> MemoryView {
        MemoryView {
            mutexes: if lookup(self.mutexes, source).is_some() {
                link_alias(self.mutexes, target, source)
            } else {
                self.mutexes
            },
            lock_guards: if lookup(self.lock_guards, source).is_some() {
                link_alias(self.lock_guards, target, source)
            } else {
                self.lock_guards
            },
            join_handles: if lookup(self.join_handles, source).is_some() {
                link_alias(self.join_handles, target, source)
            } else {
                self.join_handles
            },
            condvars: if lookup(self.condvars, source).is_some() {
                link_alias(self.condvars, target, source)
            } else {
                self.condvars
            },
        }
    }

    /// The memory without the mutexes in the local variable of a location.
    pub open spec fn unlink_mutexes(self, place: Location) -> MemoryView {
        MemoryView { mutexes: without_root(self.mutexes, place.local), ..self }
    }
}

/// Linking a location, making an alias and moving mutexes away keep a memory well
/// formed: no location comes to have two links in one table.
pub proof fn lemma_memory_stays_well_formed(
    memory: MemoryView,
    place: Location,
    source: Location,
    mutex_ref: MutexRef,
    thread_ref: ThreadRef,
    condvar_ref: CondvarRef,
)
    requires
        memory.wf(),
    ensures
        memory.link_mutex(place, mutex_ref).wf(),
        memory.link_lock_guard(place, mutex_ref).wf(),
        memory.link_join_handle(place, thread_ref).wf(),
        memory.link_condvar(place, condvar_ref).wf(),
        memory.alias(place, source).wf(),
        memory.unlink_mutexes(place).wf(),
{
    lemma_link_keeps_distinct(memory.mutexes, place, mutex_ref);
    lemma_link_keeps_distinct(memory.lock_guards, place, mutex_ref);
    lemma_link_keeps_distinct(memory.join_handles, place, thread_ref);
    lemma_link_keeps_distinct(memory.condvars, place, condvar_ref);
    if lookup(memory.mutexes, source).is_some() {
        lemma_link_keeps_distinct(memory.mutexes, place, lookup(memory.mutexes, source).unwrap());
    }
    if lookup(memory.lock_guards, source).is_some() {
        lemma_link_keeps_distinct(
            memory.lock_guards,
            place,
            lookup(memory.lock_guards, source).unwrap(),
        );
    }
    if lookup(memory.join_handles, source).is_some() {
        lemma_link_keeps_distinct(
            memory.join_handles,
            place,
            lookup(memory.join_handles, source).unwrap(),
        );
    }
    if lookup(memory.condvars, source).is_some() {
        lemma_link_keeps_distinct(
            memory.condvars,
            place,
            lookup(memory.condvars, source).unwrap(),
        );
    }
    lemma_without_root_keeps_distinct(memory.mutexes, place.local);
}

/// An auxiliary type for passing mutex memory entries from one function to the other.
pub type MutexEntries = Vec<MutexRef>;

/// An auxiliary type for passing condvar memory entries from one function to the other.
pub type CondvarEntries = Vec<CondvarRef>;

/// A table of links from locations to handles.
struct Links<H> {
    entries: Vec<(Location, H)>,
}

impl<H: Copy> Links<H> {
    fn new() -> (links: Self)
        ensures
            links.entries@ == Seq::<(Location, H)>::empty(),
    {
        Links { entries: Vec::new() }
    }

    fn position(&self, location: &Location) -> (found: Option<usize>)
        ensures
            match found {
                Some(i) => i < self.entries@.len() && position(self.entries@, *location) == Some(
                    i as int,
                ) && self.entries@[i as int].0 == *location,
                None => position(self.entries@, *location).is_none(),
            },
    {
        let mut i: usize = self.entries.len();
        assert(self.entries@.take(i as int) =~= self.entries@);
        while i > 0
            invariant
                i <= self.entries@.len(),
                position(self.entries@, *location) == position(
                    self.entries@.take(i as int),
                    *location,
                ),
            decreases i,
        {
            let ghost prefix = self.entries@.take(i as int);
            assert(prefix.drop_last() =~= self.entries@.take(i - 1));
            assert(prefix.last() == self.entries@[i - 1]);
            if self.entries[i - 1].0 == *location {
                return Some(i - 1);
            }
            i -= 1;
        }
        None
    }

    fn link(&mut self, location: Location, handle: H) -> (previous: Option<H>)
        ensures
            final(self).entries@ == link(old(self).entries@, location, handle),
            previous == lookup(old(self).entries@, location),
    {
        match self.position(&location) {
            Some(i) => {
                let previous = self.entries[i].1;
                self.entries.set(i, (location, handle));
                Some(previous)
            },
            None => {
                self.entries.push((location, handle));
                None
            },
        }
    }

    fn get(&self, location: &Location) -> (found: Option<H>)
        ensures
            found == lookup(self.entries@, *location),
    {
        match self.position(location) {
            Some(i) => Some(self.entries[i].1),
            None => None,
        }
    }

    fn find_by_root(&self, local: usize) -> (handles: Vec<H>)
        ensures
            handles@ == handles_by_root(self.entries@, local),
    {
        let mut handles: Vec<H> = Vec::new();
        let mut i: usize = 0;
        assert(self.entries@.take(0) =~= Seq::empty());
        while i < self.entries.len()
            invariant
                i <= self.entries@.len(),
                handles@ == handles_by_root(self.entries@.take(i as int), local),
            decreases self.entries@.len() - i,
        {
            let ghost prefix = self.entries@.take(i + 1);
            assert(prefix.drop_last() =~= self.entries@.take(i as int));
            assert(prefix.last() == self.entries@[i as int]);
            if self.entries[i].0.local == local {
                handles.push(self.entries[i].1);
            }
            i += 1;
        }
        assert(self.entries@.take(i as int) =~= self.entries@);
        handles
    }

    fn remove_by_root(&mut self, local: usize)
        ensures
            final(self).entries@ == without_root(old(self).entries@, local),
    {
        let mut kept: Vec<(Location, H)> = Vec::new();
        let mut i: usize = 0;
        assert(self.entries@.take(0) =~= Seq::empty());
        while i < self.entries.len()
            invariant
                i <= self.entries@.len(),
                kept@ == without_root(self.entries@.take(i as int), local),
            decreases self.entries@.len() - i,
        {
            let ghost prefix = self.entries@.take(i + 1);
            assert(prefix.drop_last() =~= self.entries@.take(i as int));
            assert(prefix.last() == self.entries@[i as int]);
            if self.entries[i].0.local != local {
                kept.push(self.entries[i]);
            }
            i += 1;
        }
        assert(self.entries@.take(i as int) =~= self.entries@);
        self.entries = kept;
    }
}

/// The synchronization handles that the locations of one function call hold.
pub struct Memory {
    places_linked_to_mutexes: Links<MutexRef>,
    places_linked_to_lock_guards: Links<MutexRef>,
    places_linked_to_join_handles: Links<ThreadRef>,
    places_linked_to_condvars: Links<CondvarRef>,
}

impl View for Memory {
    type V = MemoryView;

    closed spec fn view(&self) -> MemoryView {
        MemoryView {
            mutexes: self.places_linked_to_mutexes.entries@,
            lock_guards: self.places_linked_to_lock_guards.entries@,
            join_handles: self.places_linked_to_join_handles.entries@,
            condvars: self.places_linked_to_condvars.entries@,
        }
    }
}

impl Memory {
    /// Creates a new memory with empty mappings.
    pub fn new() -> (memory: Self)
        ensures
            memory@ == MemoryView::empty(),
            memory@.wf(),
    {
        Memory {
            places_linked_to_mutexes: Links::new(),
            places_linked_to_lock_guards: Links::new(),
            places_linked_to_join_handles: Links::new(),
            places_linked_to_condvars: Links::new(),
        }
    }

    /// Marks a place as containing a mutex. A link that the place has already is
    /// replaced.
    pub fn link_place_to_mutex(&mut self, place: Location, mutex_ref: MutexRef) -> (outcome:
        LinkOutcome)
        ensures
            final(self)@ == old(self)@.link_mutex(place, mutex_ref),
            outcome == link_outcome(lookup(old(self)@.mutexes, place), mutex_ref),
            old(self)@.wf() ==> final(self)@.wf(),
    {
        proof {
            if self@.wf() {
                lemma_memory_stays_well_formed(
                    self@,
                    place,
                    place,
                    mutex_ref,
                    ThreadRef(0),
                    CondvarRef(0),
                );
            }
        }
        match self.places_linked_to_mutexes.link(place, mutex_ref) {
            None => LinkOutcome::Linked,
            Some(old_mutex_ref) => if mutex_ref == old_mutex_ref {
                LinkOutcome::LinkedAgain
            } else {
                LinkOutcome::Relinked
            },
        }
    }

    /// Marks a place as containing a lock guard for a mutex. A link that the place
    /// has already is replaced.
    pub fn link_place_to_lock_guard(&mut self, place: Location, mutex_ref: MutexRef) -> (outcome:
        LinkOutcome)
        ensures
            final(self)@ == old(self)@.link_lock_guard(place, mutex_ref),
            outcome == link_outcome(lookup(old(self)@.lock_guards, place), mutex_ref),
            old(self)@.wf() ==> final(self)@.wf(),
    {
        proof {
            if self@.wf() {
                lemma_memory_stays_well_formed(
                    self@,
                    place,
                    place,
                    mutex_ref,
                    ThreadRef(0),
                    CondvarRef(0),
                );
            }
        }
        match self.places_linked_to_lock_guards.link(place, mutex_ref) {
            None => LinkOutcome::Linked,
            Some(old_mutex_ref) => if mutex_ref == old_mutex_ref {
                LinkOutcome::LinkedAgain
            } else {
                LinkOutcome::Relinked
            },
        }
    }

    /// Marks a place as containing a join handle for a thread. A link that the
    /// place has already is replaced.
    pub fn link_place_to_join_handle(&mut self, place: Location, thread_ref: ThreadRef) -> (outcome:
        LinkOutcome)
        ensures
            final(self)@ == old(self)@.link_join_handle(place, thread_ref),
            outcome == link_outcome(lookup(old(self)@.join_handles, place), thread_ref),
            old(self)@.wf() ==> final(self)@.wf(),
    {
        proof {
            if self@.wf() {
                lemma_memory_stays_well_formed(
                    self@,
                    place,
                    place,
                    MutexRef(0),
                    thread_ref,
                    CondvarRef(0),
                );
            }
        }
        match self.places_linked_to_join_handles.link(place, thread_ref) {
            None => LinkOutcome::Linked,
            Some(old_thread_ref) => if thread_ref == old_thread_ref {
                LinkOutcome::LinkedAgain
            } else {
                LinkOutcome::Relinked
            },
        }
    }

    /// Marks a place as containing a condition variable. A link that the place has
    /// already is replaced.
    pub fn link_place_to_condvar(&mut self, place: Location, condvar_ref: CondvarRef) -> (outcome:
        LinkOutcome)
        ensures
            final(self)@ == old(self)@.link_condvar(place, condvar_ref),
            outcome == link_outcome(lookup(old(self)@.condvars, place), condvar_ref),
            old(self)@.wf() ==> final(self)@.wf(),
    {
        proof {
            if self@.wf() {
                lemma_memory_stays_well_formed(
                    self@,
                    place,
                    place,
                    MutexRef(0),
                    ThreadRef(0),
                    condvar_ref,
                );
            }
        }
        match self.places_linked_to_condvars.link(place, condvar_ref) {
            None => LinkOutcome::Linked,
            Some(old_condvar_ref) => if condvar_ref == old_condvar_ref {
                LinkOutcome::LinkedAgain
            } else {
                LinkOutcome::Relinked
            },
        }
    }

    /// Returns the mutex reference linked to the given place, which is linked to
    /// a mutex.
    pub fn get_linked_mutex(&self, place: &Location) -> (mutex_ref: MutexRef)
        requires
            lookup(self@.mutexes, *place).is_some(),
        ensures
            lookup(self@.mutexes, *place) == Some(mutex_ref),
    {
        self.places_linked_to_mutexes.get(place).unwrap()
    }

    /// Returns the mutex for the lock guard linked to the given place, which is
    /// linked to a lock guard.
    pub fn get_linked_lock_guard(&self, place: &Location) -> (mutex_ref: MutexRef)
        requires
            lookup(self@.lock_guards, *place).is_some(),
        ensures
            lookup(self@.lock_guards, *place) == Some(mutex_ref),
    {
        self.places_linked_to_lock_guards.get(place).unwrap()
    }

    /// Returns the thread reference for the join handle linked to the given place,
    /// which is linked to a join handle.
    pub fn get_linked_join_handle(&self, place: &Location) -> (thread_ref: ThreadRef)
        requires
            lookup(self@.join_handles, *place).is_some(),
        ensures
            lookup(self@.join_handles, *place) == Some(thread_ref),
    {
        self.places_linked_to_join_handles.get(place).unwrap()
    }

    /// Returns the condvar reference for the condition variable linked to the given
    /// place, which is linked to a condition variable.
    pub fn get_linked_condvar(&self, place: &Location) -> (condvar_ref: CondvarRef)
        requires
            lookup(self@.condvars, *place).is_some(),
        ensures
            lookup(self@.condvars, *place) == Some(condvar_ref),
    {
        self.places_linked_to_condvars.get(place).unwrap()
    }

    /// Checks whether the place is linked to a mutex.
    pub fn is_linked_to_mutex(&self, place: Location) -> (linked: bool)
        ensures
            linked == lookup(self@.mutexes, place).is_some(),
    {
        self.places_linked_to_mutexes.get(&place).is_some()
    }

    /// Checks whether the place is linked to a lock guard.
    pub fn is_linked_to_lock_guard(&self, place: Location) -> (linked: bool)
        ensures
            linked == lookup(self@.lock_guards, place).is_some(),
    {
        self.places_linked_to_lock_guards.get(&place).is_some()
    }

    /// Checks whether the place is linked to a join handle.
    pub fn is_linked_to_join_handle(&self, place: Location) -> (linked: bool)
        ensures
            linked == lookup(self@.join_handles, place).is_some(),
    {
        self.places_linked_to_join_handles.get(&place).is_some()
    }

    /// Checks whether the place is linked to a condition variable.
    pub fn is_linked_to_condvar(&self, place: Location) -> (linked: bool)
        ensures
            linked == lookup(self@.condvars, place).is_some(),
    {
        self.places_linked_to_condvars.get(&place).is_some()
    }

    /// Links a place to the mutex linked to another place.
    /// After this operation both places point to the same mutex, i.e.,
    /// the first place is an alias for the second place.
    pub fn link_place_to_same_mutex(
        &mut self,
        place_to_be_linked: Location,
        place_linked_to_mutex: Location,
    )
        requires
            lookup(old(self)@.mutexes, place_linked_to_mutex).is_some(),
        ensures
            final(self)@ == (MemoryView {
                mutexes: link_alias(old(self)@.mutexes, place_to_be_linked, place_linked_to_mutex),
                ..old(self)@
            }),
            old(self)@.wf() ==> final(self)@.wf(),
    {
        let mutex_ref = self.get_linked_mutex(&place_linked_to_mutex);
        self.link_place_to_mutex(place_to_be_linked, mutex_ref);
    }

    /// Links a place to the lock guard linked to another place.
    /// After this operation both places point to the same lock guard, i.e.,
    /// the first place is an alias for the second place.
    pub fn link_place_to_same_lock_guard(
        &mut self,
        place_to_be_linked: Location,
        place_linked_to_lock_guard: Location,
    )
        requires
            lookup(old(self)@.lock_guards, place_linked_to_lock_guard).is_some(),
        ensures
            final(self)@ == (MemoryView {
                lock_guards: link_alias(
                    old(self)@.lock_guards,
                    place_to_be_linked,
                    place_linked_to_lock_guard,
                ),
                ..old(self)@
            }),
            old(self)@.wf() ==> final(self)@.wf(),
    {
        let mutex_ref = self.get_linked_lock_guard(&place_linked_to_lock_guard);
        self.link_place_to_lock_guard(place_to_be_linked, mutex_ref);
    }

    /// Links a place to the join handle linked to another place.
    /// After this operation both places point to the same join handle, i.e.,
    /// the first place is an alias for the second place.
    pub fn link_place_to_same_join_handle(
        &mut self,
        place_to_be_linked: Location,
        place_linked_to_join_handle: Location,
    )
        requires
            lookup(old(self)@.join_handles, place_linked_to_join_handle).is_some(),
        ensures
            final(self)@ == (MemoryView {
                join_handles: link_alias(
                    old(self)@.join_handles,
                    place_to_be_linked,
                    place_linked_to_join_handle,
                ),
                ..old(self)@
            }),
            old(self)@.wf() ==> final(self)@.wf(),
    {
        let thread_ref = self.get_linked_join_handle(&place_linked_to_join_handle);
        self.link_place_to_join_handle(place_to_be_linked, thread_ref);
    }

    /// Links a place to the condition variable linked to another place.
    /// After this operation both places point to the same condition variable, i.e.,
    /// the first place is an alias for the second place.
    pub fn link_place_to_same_condvar(
        &mut self,
        place_to_be_linked: Location,
        place_linked_to_condvar: Location,
    )
        requires
            lookup(old(self)@.condvars, place_linked_to_condvar).is_some(),
        ensures
            final(self)@ == (MemoryView {
                condvars: link_alias(
                    old(self)@.condvars,
                    place_to_be_linked,
                    place_linked_to_condvar,
                ),
                ..old(self)@
            }),
            old(self)@.wf() ==> final(self)@.wf(),
    {
        let condvar_ref = self.get_linked_condvar(&place_linked_to_condvar);
        self.link_place_to_condvar(place_to_be_linked, condvar_ref);
    }

    /// Gives the place every handle that another place is linked to: the effect of
    /// a copy, a move, a reference or a dereference on the handles.
    pub fn link_alias(&mut self, target: Location, source: Location)
        ensures
            final(self)@ == old(self)@.alias(target, source),
            old(self)@.wf() ==> final(self)@.wf(),
    {
        if self.is_linked_to_mutex(source) {
            self.link_place_to_same_mutex(target, source);
        }
        if self.is_linked_to_lock_guard(source) {
            self.link_place_to_same_lock_guard(target, source);
        }
        if self.is_linked_to_join_handle(source) {
            self.link_place_to_same_join_handle(target, source);
        }
        if self.is_linked_to_condvar(source) {
            self.link_place_to_same_condvar(target, source);
        }
    }

    /// Finds all the mutexes linked to the given place.
    /// It takes into consideration that the place may have several fields:
    /// the result holds the mutex of every linked place in the same local variable,
    /// in the order in which the places were linked.
    ///
    /// This is an approximation: a closure declares its captures in an order of its
    /// own, which need not be the order in which the places were linked.
    pub fn find_mutexes_linked_to_place(&self, place: Location) -> (result: MutexEntries)
        ensures
            result@ == handles_by_root(self@.mutexes, place.local),
    {
        self.places_linked_to_mutexes.find_by_root(place.local)
    }

    /// Finds all the condvars linked to the given place.
    /// It takes into consideration that the place may have several fields:
    /// the result holds the condition variable of every linked place in the same
    /// local variable, in the order in which the places were linked.
    pub fn find_condvars_linked_to_place(&self, place: Location) -> (result: CondvarEntries)
        ensures
            result@ == handles_by_root(self@.condvars, place.local),
    {
        self.places_linked_to_condvars.find_by_root(place.local)
    }

    /// Removes the links to mutexes of all places in the local variable of the
    /// given place: the mutexes have moved away.
    pub fn unlink_mutexes_linked_to_place(&mut self, place: Location)
        ensures
            final(self)@ == old(self)@.unlink_mutexes(place),
            old(self)@.wf() ==> final(self)@.wf(),
    {
        proof {
            if self@.wf() {
                lemma_without_root_keeps_distinct(self@.mutexes, place.local);
            }
        }
        self.places_linked_to_mutexes.remove_by_root(place.local);
    }
}

} // verus!
