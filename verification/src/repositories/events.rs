//! The event notifier: notifications recorded for users, listed for them, and
//! marked as read. Events accumulate; nothing ever deletes one.

use vstd::prelude::*;

use crate::ident::{current_time, fresh_id, fresh_ids, Id, Timestamp};
use crate::models::event::{Event, EventType};
use crate::repositories::RepoError;

verus! {

/// The event as it is recorded: unseen.
pub open spec fn new_event(
    event_id: Id,
    now: Timestamp,
    document_id: Id,
    version_id: Id,
    user_id: Id,
    event_type: EventType,
) -> Event {
    Event { event_id, user_id, document_id, version_id, event_type, seen: false, created_at: now }
}

/// The rows of the event store, oldest first.
pub struct EventsState {
    pub events: Seq<Event>,
}

impl EventsState {
    /// Row `i` is the event `event_id`.
    pub open spec fn is_event(self, i: int, event_id: Id) -> bool {
        0 <= i < self.events.len() && self.events[i].event_id == event_id
    }

    /// The event `event_id` exists.
    pub open spec fn has_event(self, event_id: Id) -> bool {
        exists|i: int| self.is_event(i, event_id)
    }

    /// No two events share an identifier.
    pub open spec fn wf(self) -> bool {
        forall|i: int, j: int|
            #![trigger self.events[i], self.events[j]]
            0 <= i < self.events.len() && 0 <= j < self.events.len() && self.events[i].event_id
                == self.events[j].event_id ==> i == j
    }

    /// The store with one more event.
    pub open spec fn with_event(self, event: Event) -> EventsState {
        EventsState { events: self.events.push(event) }
    }

    /// The store with the event `event_id` marked as seen, and every other
    /// event as it was.
    pub open spec fn marking_read(self, event_id: Id) -> EventsState {
        EventsState {
            events: Seq::new(
                self.events.len(),
                |i: int|
                    if self.events[i].event_id == event_id {
                        Event { seen: true, ..self.events[i] }
                    } else {
                        self.events[i]
                    },
            ),
        }
    }

    /// What recording `event` does: it is appended, unless its identifier is
    /// in use, which is a failure of the store that changes nothing.
    pub open spec fn records(self, after: EventsState, result: Result<(), RepoError>, event: Event) -> bool {
        if self.has_event(event.event_id) {
            result == Err::<(), RepoError>(RepoError::StoreFailure) && after == self
        } else {
            result == Ok::<(), RepoError>(()) && after == self.with_event(event)
        }
    }

    /// The store once each of `recipients` has been notified of `event_type`
    /// on one version at the time `now`, the recipients taken in their order
    /// and each with the identifier at its place in `event_ids`.
    ///
    /// For each recipient the event is recorded exactly if there is an
    /// identifier at its place and that identifier is not in use by then; a
    /// notification that cannot be recorded is given up, and the others are
    /// still made.
    pub open spec fn notified(
        self,
        recipients: Seq<Id>,
        event_ids: Seq<Id>,
        now: Timestamp,
        document_id: Id,
        version_id: Id,
        event_type: EventType,
    ) -> EventsState
        decreases recipients.len(),
    {
        if recipients.len() == 0 {
            self
        } else {
            let before = self.notified(
                recipients.drop_last(),
                event_ids,
                now,
                document_id,
                version_id,
                event_type,
            );
            let place = recipients.len() - 1;
            if place < event_ids.len() && !before.has_event(event_ids[place]) {
                before.with_event(
                    new_event(
                        event_ids[place],
                        now,
                        document_id,
                        version_id,
                        recipients.last(),
                        event_type,
                    ),
                )
            } else {
                before
            }
        }
    }

    /// Row `a` is listed before row `b`: unseen before seen, then the later
    /// before the earlier, then in the order of recording.
    pub open spec fn listed_before(self, a: int, b: int) -> bool {
        !self.events[b].lists_before(self.events[a]) || (self.events[a].lists_before(
            self.events[b],
        ) && a < b)
    }

    /// `listed` is what `user_id` is shown: the events in `rows`, which are
    /// exactly those recorded for the user, each once, in listing order.
    pub open spec fn lists_events(self, user_id: Id, rows: Seq<int>, listed: Seq<Event>) -> bool {
        &&& rows.len() == listed.len()
        &&& forall|k: int|
            0 <= k < rows.len() ==> 0 <= #[trigger] rows[k] < self.events.len()
                && self.events[rows[k]].user_id == user_id && listed[k] == self.events[rows[k]]
        &&& forall|i: int|
            0 <= i < self.events.len() && self.events[i].user_id == user_id
                ==> #[trigger] rows.contains(i)
        &&& forall|a: int, b: int|
            0 <= a < b < rows.len() ==> #[trigger] self.listed_before(rows[a], rows[b])
    }
}

/// The event store.
pub struct EventsRepository {
    events: Vec<Event>,
}

impl View for EventsRepository {
    type V = EventsState;

    closed spec fn view(&self) -> EventsState {
        EventsState { events: self.events@ }
    }
}

impl EventsRepository {
    /// A store without events.
    pub fn new() -> (repository: EventsRepository)
        ensures
            repository@.events.len() == 0,
            repository@.wf(),
    {
        EventsRepository { events: Vec::new() }
    }

    /// The row of the event `event_id`.
    fn find_event(&self, event_id: Id) -> (row: Option<usize>)
        ensures
            match row {
                Some(i) => self@.is_event(i as int, event_id),
                None => !self@.has_event(event_id),
            },
    {
        let mut i: usize = 0;
        while i < self.events.len()
            invariant
                0 <= i <= self.events.len(),
                forall|k: int| 0 <= k < i ==> !self@.is_event(k, event_id),
            decreases self.events.len() - i,
        {
            if self.events[i].event_id == event_id {
                return Some(i);
            }
            i += 1;
        }
        None
    }

    /// Records for `user_id` the event `event_type` on version `version_id` of
    /// `document_id`, under the identifier `event_id` and at the time `now`.
    pub fn create_event_with(
        &mut self,
        event_id: Id,
        now: Timestamp,
        document_id: Id,
        version_id: Id,
        user_id: Id,
        event_type: EventType,
    ) -> (result: Result<(), RepoError>)
        requires
            old(self)@.wf(),
        ensures
            final(self)@.wf(),
            old(self)@.records(
                final(self)@,
                result,
                new_event(event_id, now, document_id, version_id, user_id, event_type),
            ),
    {
        if self.find_event(event_id).is_some() {
            return Err(RepoError::StoreFailure);
        }
        let event = Event {
            event_id,
            user_id,
            document_id,
            version_id,
            event_type,
            seen: false,
            created_at: now,
        };
        self.events.push(event);
        assert forall|i: int, j: int|
            #![trigger self@.events[i], self@.events[j]]
            0 <= i < self@.events.len() && 0 <= j < self@.events.len() && self@.events[i].event_id
                == self@.events[j].event_id implies i == j by {
            if i < old(self)@.events.len() {
                assert(!old(self)@.is_event(i, event_id));
            }
            if j < old(self)@.events.len() {
                assert(!old(self)@.is_event(j, event_id));
            }
        }
        Ok(())
    }

    /// Records for `user_id` the event `event_type` on version `version_id` of
    /// `document_id`, under a fresh identifier and at the current time.
    pub fn create_event(
        &mut self,
        document_id: Id,
        version_id: Id,
        user_id: Id,
        event_type: EventType,
    ) -> (result: Result<(), RepoError>)
        requires
            old(self)@.wf(),
        ensures
            final(self)@.wf(),
            exists|event_id: Id, now: Timestamp|
                old(self)@.records(
                    final(self)@,
                    result,
                    #[trigger] new_event(event_id, now, document_id, version_id, user_id, event_type),
                ),
    {
        let event_id = fresh_id();
        let now = current_time();
        self.create_event_with(event_id, now, document_id, version_id, user_id, event_type)
    }

    /// Notifies each of `recipients` of `event_type` on version `version_id`
    /// of `document_id` at the time `now`, each with the identifier at its
    /// place in `event_ids`. A notification that cannot be recorded is given
    /// up, and the others are still made.
    pub fn notify_with(
        &mut self,
        recipients: &Vec<Id>,
        event_ids: &Vec<Id>,
        now: Timestamp,
        document_id: Id,
        version_id: Id,
        event_type: EventType,
    )
        requires
            old(self)@.wf(),
        ensures
            final(self)@.wf(),
            final(self)@ == old(self)@.notified(
                recipients@,
                event_ids@,
                now,
                document_id,
                version_id,
                event_type,
            ),
    {
        let mut k: usize = 0;
        while k < recipients.len()
            invariant
                0 <= k <= recipients.len(),
                self@.wf(),
                self@ == old(self)@.notified(
                    recipients@.take(k as int),
                    event_ids@,
                    now,
                    document_id,
                    version_id,
                    event_type,
                ),
            decreases recipients.len() - k,
        {
            let ghost longer = recipients@.take(k + 1);
            assert(longer.drop_last() == recipients@.take(k as int));
            assert(longer.last() == recipients@[k as int]);
            if k < event_ids.len() {
                let _ = self.create_event_with(
                    event_ids[k],
                    now,
                    document_id,
                    version_id,
                    recipients[k],
                    event_type,
                );
            }
            k += 1;
        }
        assert(recipients@.take(k as int) == recipients@);
    }

    /// Notifies each of `recipients` of `event_type` on version `version_id`
    /// of `document_id`, at the current time and under fresh identifiers.
    pub fn notify(
        &mut self,
        recipients: &Vec<Id>,
        document_id: Id,
        version_id: Id,
        event_type: EventType,
    )
        requires
            old(self)@.wf(),
        ensures
            final(self)@.wf(),
            exists|event_ids: Seq<Id>, now: Timestamp|
                event_ids.len() == recipients@.len() && final(self)@ == #[trigger] old(
                    self,
                )@.notified(recipients@, event_ids, now, document_id, version_id, event_type),
    {
        let event_ids = fresh_ids(recipients.len());
        let now = current_time();
        self.notify_with(recipients, &event_ids, now, document_id, version_id, event_type);
    }

    /// The events recorded for `user_id`: unseen ones first, and among those
    /// equally seen the most recent first.
    pub fn get_events_for_user(&self, user_id: Id) -> (listed: Vec<Event>)
        ensures
            exists|rows: Seq<int>| #[trigger] self@.lists_events(user_id, rows, listed@),
    {
        let mut listed: Vec<Event> = Vec::new();
        let ghost mut rows: Seq<int> = Seq::empty();
        let mut i: usize = 0;
        while i < self.events.len()
            invariant
                0 <= i <= self.events.len(),
                rows.len() == listed@.len(),
                forall|k: int|
                    0 <= k < rows.len() ==> 0 <= #[trigger] rows[k] < i
                        && self@.events[rows[k]].user_id == user_id && listed@[k]
                        == self@.events[rows[k]],
                forall|j: int|
                    0 <= j < i && self@.events[j].user_id == user_id ==> #[trigger] rows.contains(j),
                forall|a: int, b: int|
                    0 <= a < b < rows.len() ==> #[trigger] self@.listed_before(rows[a], rows[b]),
            decreases self.events.len() - i,
        {
            if self.events[i].user_id == user_id {
                let event = self.events[i];
                let mut at: usize = 0;
                while at < listed.len() && listed[at].comes_before(&event)
                    invariant
                        0 <= at <= listed@.len(),
                        forall|k: int| 0 <= k < at ==> (#[trigger] listed@[k]).lists_before(event),
                    decreases listed@.len() - at,
                {
                    at += 1;
                }
                let ghost before = rows;
                let ghost listed_before = listed@;
                listed.insert(at, event);
                proof {
                    rows = before.insert(at as int, i as int);
                    assert forall|k: int| 0 <= k < rows.len() implies 0 <= #[trigger] rows[k] < i
                        + 1 && self@.events[rows[k]].user_id == user_id && listed@[k]
                        == self@.events[rows[k]] by {
                        if k < at {
                            assert(rows[k] == before[k]);
                            assert(listed@[k] == listed_before[k]);
                        } else if k > at {
                            assert(rows[k] == before[k - 1]);
                            assert(listed@[k] == listed_before[k - 1]);
                        }
                    }
                    assert forall|j: int|
                        0 <= j < i + 1 && self@.events[j].user_id
                            == user_id implies #[trigger] rows.contains(j) by {
                        if j < i {
                            assert(before.contains(j));
                            let k = choose|k: int| 0 <= k < before.len() && before[k] == j;
                            if k < at {
                                assert(rows[k] == j);
                            } else {
                                assert(rows[k + 1] == j);
                            }
                        } else {
                            assert(rows[at as int] == j);
                        }
                    }
                    assert forall|a: int, b: int| 0 <= a < b < rows.len() implies #[trigger]
                        self@.listed_before(rows[a], rows[b]) by {
                        let from_a = if a < at { a } else { a - 1 };
                        let from_b = if b < at { b } else { b - 1 };
                        if a != at && b != at {
                            assert(rows[a] == before[from_a]);
                            assert(rows[b] == before[from_b]);
                            assert(self@.listed_before(before[from_a], before[from_b]));
                        } else if a == at {
                            assert(rows[b] == before[b - 1]);
                            assert(listed_before[b - 1] == self@.events[before[b - 1]]);
                            assert(listed_before[at as int] == self@.events[before[at as int]]);
                            if b - 1 > at {
                                assert(self@.listed_before(before[at as int], before[b - 1]));
                            }
                        } else {
                            assert(rows[a] == before[a]);
                            assert(listed_before[a] == self@.events[before[a]]);
                        }
                    }
                }
            }
            i += 1;
        }
        assert(self@.lists_events(user_id, rows, listed@));
        listed
    }

    /// Marks the event `event_id` as seen. Where there is no such event,
    /// nothing changes.
    pub fn mark_read(&mut self, event_id: Id)
        requires
            old(self)@.wf(),
        ensures
            final(self)@.wf(),
            final(self)@ == old(self)@.marking_read(event_id),
    {
        match self.find_event(event_id) {
            Some(i) => {
                let event = self.events[i];
                self.events.set(i, Event { seen: true, ..event });
                assert(self@.events =~= old(self)@.marking_read(event_id).events) by {
                    assert forall|k: int| 0 <= k < self@.events.len() implies self@.events[k]
                        == old(self)@.marking_read(event_id).events[k] by {
                        if k != i {
                            assert(old(self)@.events[k].event_id != old(self)@.events[i as int].event_id);
                        }
                    }
                }
            },
            None => {
                assert(self@.events =~= old(self)@.marking_read(event_id).events) by {
                    assert forall|k: int| 0 <= k < self@.events.len() implies self@.events[k]
                        == old(self)@.marking_read(event_id).events[k] by {
                        assert(!self@.is_event(k, event_id));
                    }
                }
            },
        }
    }
}

} // verus!
