//! The response registry: the responses that have arrived and wait for the
//! call that asked for them.
//!
//! Time is a count of milliseconds that the connection hands in with each
//! call. A response is kept until its call's deadline has passed by the grace
//! period, or, where no call waits for it, until the grace period has passed
//! since it arrived.

use crate::command::{CommandResponse, CommandResponseError, CommandResult, ResponseView};
use crate::error::DeviceError;
use std::collections::HashMap;
use vstd::prelude::*;
use vstd::std_specs::hash::spec_keys_iter;
use vstd::std_specs::iter::IteratorSpec;

verus! {

/// How long an unclaimed response is kept, in milliseconds, unless the
/// registry is made with another period.
pub const DEFAULT_GRACE: u64 = 5000;

/// The sum of two times, held at the largest time where it would pass it.
pub open spec fn time_after(time: u64, span: u64) -> u64 {
    if time + span > u64::MAX {
        u64::MAX
    } else {
        (time + span) as u64
    }
}

/// The time until which a response that arrives at `now` is kept: the grace
/// period past the deadline of the call that waits for it, or past its
/// arrival where no call waits or the deadline is behind.
pub open spec fn keep_until(now: u64, deadline: Option<u64>, grace: u64) -> u64 {
    match deadline {
        Some(deadline) if deadline > now => time_after(deadline, grace),
        _ => time_after(now, grace),
    }
}

/// What a [`Responses`] registry holds.
pub struct ResponsesView {
    /// The stored responses, by identifier.
    pub entries: Map<i32, ResponseView>,
    /// The time until which each stored response is kept.
    pub kept_until: Map<i32, u64>,
    /// The deadlines of the calls that wait for a response, by identifier.
    pub waiting: Map<i32, u64>,
    /// The terminal error, once the registry is closed.
    pub closed: Option<DeviceError>,
    /// How many times the registry has changed in a way that a waiting call
    /// must look at: insertions and closings. The count wraps around.
    pub changes: u64,
    /// The grace period, in milliseconds.
    pub grace: u64,
}

impl ResponsesView {
    /// An empty and open registry.
    pub open spec fn empty(grace: u64) -> ResponsesView {
        ResponsesView {
            entries: Map::empty(),
            kept_until: Map::empty(),
            waiting: Map::empty(),
            closed: None,
            changes: 0,
            grace,
        }
    }

    /// Every stored response stands under its own identifier and has a time
    /// until which it is kept.
    pub open spec fn well_formed(self) -> bool {
        &&& self.entries.dom() == self.kept_until.dom()
        &&& self.entries.dom().finite()
        &&& forall|id: i32| #[trigger] self.entries.contains_key(id) ==> self.entries[id].id == id
    }

    /// The registry after a response arrived at `now`.
    pub open spec fn added(self, response: ResponseView, now: u64) -> ResponsesView {
        ResponsesView {
            entries: self.entries.insert(response.id, response),
            kept_until: self.kept_until.insert(
                response.id,
                keep_until(now, self.waiting.get(response.id), self.grace),
            ),
            changes: self.changes.wrapping_add(1),
            ..self
        }
    }

    /// The registry after the response with the given identifier was taken.
    pub open spec fn without(self, id: i32) -> ResponsesView {
        ResponsesView {
            entries: self.entries.remove(id),
            kept_until: self.kept_until.remove(id),
            ..self
        }
    }

    /// The registry after a call began to wait for `id` until `deadline`.
    pub open spec fn expecting(self, id: i32, deadline: u64) -> ResponsesView {
        ResponsesView { waiting: self.waiting.insert(id, deadline), ..self }
    }

    /// The registry after the call that waited for `id` ended.
    pub open spec fn forgetting(self, id: i32) -> ResponsesView {
        ResponsesView { waiting: self.waiting.remove(id), ..self }
    }

    /// Whether the response stored under `id` is still kept at `now`.
    pub open spec fn keeps(self, id: i32, now: u64) -> bool {
        self.kept_until.contains_key(id) && self.kept_until[id] > now
    }

    /// Whether the call that waits for `id` still counts at `now`: its
    /// deadline has not passed by the grace period.
    pub open spec fn awaits(self, id: i32, now: u64) -> bool {
        self.waiting.contains_key(id) && time_after(self.waiting[id], self.grace) > now
    }

    /// The registry after everything whose time has passed at `now` was
    /// dropped.
    pub open spec fn evicted(self, now: u64) -> ResponsesView {
        ResponsesView {
            entries: self.entries.restrict(Set::new(|id: i32| self.keeps(id, now))),
            kept_until: self.kept_until.restrict(Set::new(|id: i32| self.keeps(id, now))),
            waiting: self.waiting.restrict(Set::new(|id: i32| self.awaits(id, now))),
            ..self
        }
    }

    /// The registry after it was closed with a terminal error. The first
    /// terminal error stays.
    pub open spec fn closed_with(self, error: DeviceError) -> ResponsesView {
        ResponsesView {
            closed: match self.closed {
                Some(first) => Some(first),
                None => Some(error),
            },
            changes: self.changes.wrapping_add(1),
            ..self
        }
    }
}

/// What is kept of a response, with the time until which it is kept. The
/// identifier is the key that it stands under.
struct Stored {
    result: Vec<CommandResult>,
    error: Option<CommandResponseError>,
    keep_until: u64,
}

impl Stored {
    /// The response that stands under `id`.
    spec fn response(self, id: i32) -> ResponseView {
        ResponseView {
            id,
            result: self.result@,
            error: match self.error {
                Some(error) => Some(error@),
                None => None,
            },
        }
    }
}

/// The responses that have arrived and were not claimed yet, by identifier.
pub struct Responses {
    responses: HashMap<i32, Stored>,
    waiting: HashMap<i32, u64>,
    closed: Option<DeviceError>,
    changes: u64,
    grace: u64,
}

impl View for Responses {
    type V = ResponsesView;

    closed spec fn view(&self) -> ResponsesView {
        ResponsesView {
            entries: Map::new(
                |id: i32| self.responses@.contains_key(id),
                |id: i32| self.responses@[id].response(id),
            ),
            kept_until: self.responses@.map_values(|stored: Stored| stored.keep_until),
            waiting: self.waiting@,
            closed: self.closed,
            changes: self.changes,
            grace: self.grace,
        }
    }
}

impl Responses {
    /// Whatever was done to a registry, every stored response stands under
    /// its own identifier and has a time until which it is kept.
    pub proof fn lemma_well_formed(self)
        ensures
            self@.well_formed(),
    {
        broadcast use vstd::std_specs::hash::group_hash_axioms;

        assert(self@.entries.dom() =~= self.responses@.dom());
        assert(self@.kept_until.dom() =~= self.responses@.dom());
    }

    /// An empty, open registry with the default grace period.
    pub fn new() -> (registry: Responses)
        ensures
            registry@ == ResponsesView::empty(DEFAULT_GRACE),
    {
        Responses::with_grace(DEFAULT_GRACE)
    }

    /// An empty, open registry with the given grace period.
    pub fn with_grace(grace: u64) -> (registry: Responses)
        ensures
            registry@ == ResponsesView::empty(grace),
    {
        let registry = Responses {
            responses: HashMap::new(),
            waiting: HashMap::new(),
            closed: None,
            changes: 0,
            grace,
        };
        assert(registry@.entries =~= Map::<i32, ResponseView>::empty());
        assert(registry@.kept_until =~= Map::<i32, u64>::empty());
        registry
    }

    /// Stores a response that arrived at `now`, in place of any earlier one
    /// with the same identifier, and counts the change.
    pub fn add(&mut self, response: CommandResponse, now: u64)
        ensures
            final(self)@ == old(self)@.added(response@, now),
    {
        let id = response.id;
        let base = match self.waiting.get(&id) {
            Some(deadline) if *deadline > now => *deadline,
            _ => now,
        };
        let keep_until = base.saturating_add(self.grace);
        let ghost arrived = response@;
        let CommandResponse { id: _, result, error } = response;
        self.responses.insert(id, Stored { result, error, keep_until });
        self.changes = self.changes.wrapping_add(1);
        assert(self@.entries =~= old(self)@.added(arrived, now).entries);
        assert(self@.kept_until =~= old(self)@.added(arrived, now).kept_until);
    }

    /// Takes the response with the given identifier out, where there is one.
    /// What was taken cannot be taken again.
    pub fn consume(&mut self, id: i32) -> (taken: Option<CommandResponse>)
        ensures
            match taken {
                Some(response) => old(self)@.entries.get(id) == Some(response@) && response.id
                    == id,
                None => !old(self)@.entries.contains_key(id),
            },
            final(self)@ == old(self)@.without(id),
    {
        let taken = self.responses.remove(&id);
        assert(self@.entries =~= old(self)@.without(id).entries);
        assert(self@.kept_until =~= old(self)@.without(id).kept_until);
        match taken {
            Some(stored) => Some(CommandResponse { id, result: stored.result, error: stored.error }),
            None => None,
        }
    }

    /// Whether a response with the given identifier is stored.
    pub fn contains(&self, id: i32) -> (stored: bool)
        ensures
            stored == self@.entries.contains_key(id),
    {
        self.responses.contains_key(&id)
    }

    /// How many responses are stored.
    pub fn len(&self) -> (count: usize)
        ensures
            count == self@.entries.len(),
    {
        assert(self@.entries.dom() =~= self.responses@.dom());
        self.responses.len()
    }

    /// Notes that a call waits for the response with the given identifier
    /// until `deadline`.
    pub fn expect(&mut self, id: i32, deadline: u64)
        ensures
            final(self)@ == old(self)@.expecting(id, deadline),
    {
        self.waiting.insert(id, deadline);
    }

    /// Notes that no call waits for the response with the given identifier
    /// any more.
    pub fn forget(&mut self, id: i32)
        ensures
            final(self)@ == old(self)@.forgetting(id),
    {
        self.waiting.remove(&id);
    }

    /// Closes the registry with a terminal error and counts the change. The
    /// first terminal error stays.
    pub fn close(&mut self, error: DeviceError)
        ensures
            final(self)@ == old(self)@.closed_with(error),
    {
        if self.closed.is_none() {
            self.closed = Some(error);
        }
        self.changes = self.changes.wrapping_add(1);
    }

    /// The terminal error, once the registry is closed.
    pub fn terminal_error(&self) -> (error: Option<DeviceError>)
        ensures
            error == self@.closed,
    {
        self.closed
    }

    /// The count of changes, to be handed to [`Responses::changed_since`]
    /// after a wait.
    pub fn change_count(&self) -> (count: u64)
        ensures
            count == self@.changes,
    {
        self.changes
    }

    /// Whether a call that saw the count of changes at `seen` has reason to
    /// look again: something was stored or the registry was closed since, or
    /// it is closed.
    pub fn changed_since(&self, seen: u64) -> (changed: bool)
        ensures
            changed == (self@.changes != seen || self@.closed is Some),
    {
        self.changes != seen || self.closed.is_some()
    }

    /// Drops every response whose time has passed, and every waiting call
    /// whose deadline has passed by the grace period. Says how many
    /// responses were dropped.
    pub fn evict(&mut self, now: u64) -> (dropped: usize)
        ensures
            final(self)@ == old(self)@.evicted(now),
            dropped == old(self)@.entries.len() - final(self)@.entries.len(),
    {
        let before = self.responses.len();
        let ids = keys_of(&self.responses);
        let mut i: usize = 0;
        while i < ids.len()
            invariant
                i <= ids.len(),
                self.waiting == old(self).waiting,
                self.closed == old(self).closed,
                self.changes == old(self).changes,
                self.grace == old(self).grace,
                forall|id: i32| old(self).responses@.contains_key(id) ==> ids@.contains(id),
                forall|id: i32|
                    self.responses@.contains_key(id) <==> old(self).responses@.contains_key(id)
                        && !(old(self).responses@[id].keep_until <= now && ids@.take(
                        i as int,
                    ).contains(id)),
                forall|id: i32|
                    self.responses@.contains_key(id) ==> self.responses@[id] == old(
                        self,
                    ).responses@[id],
            decreases ids.len() - i,
        {
            let id = ids[i];
            let stale = match self.responses.get(&id) {
                Some(stored) => stored.keep_until <= now,
                None => false,
            };
            if stale {
                self.responses.remove(&id);
            }
            proof {
                let upto = ids@.take(i as int + 1);
                assert(upto.drop_last() == ids@.take(i as int));
                assert(upto.last() == id);
                assert forall|other: i32| upto.contains(other) <==> ids@.take(
                    i as int,
                ).contains(other) || other == id by {
                    if upto.contains(other) {
                        let k = choose|k: int| 0 <= k < upto.len() && upto[k] == other;
                        if k < i {
                            assert(ids@.take(i as int)[k] == other);
                        }
                    }
                    if ids@.take(i as int).contains(other) {
                        let k = choose|k: int|
                            0 <= k < ids@.take(i as int).len() && ids@.take(i as int)[k] == other;
                        assert(upto[k] == other);
                    }
                    if other == id {
                        assert(upto[i as int] == other);
                    }
                }
            }
            i += 1;
        }
        proof {
            assert(ids@.take(i as int) == ids@);
            assert(self@.entries =~= old(self)@.evicted(now).entries);
            assert(self@.kept_until =~= old(self)@.evicted(now).kept_until);
            assert(self@.waiting == old(self)@.waiting);
        }
        let ghost mid = self@;
        self.drop_abandoned(now);
        proof {
            assert(mid.evicted(now).waiting =~= old(self)@.evicted(now).waiting);
            assert(self@.entries.dom() =~= self.responses@.dom());
            assert(old(self)@.entries.dom() =~= old(self).responses@.dom());
            vstd::set_lib::lemma_len_subset(self.responses@.dom(), old(self).responses@.dom());
        }
        before - self.responses.len()
    }

    /// Drops every waiting call whose deadline has passed by the grace
    /// period.
    fn drop_abandoned(&mut self, now: u64)
        ensures
            final(self).responses == old(self).responses,
            final(self)@ == (ResponsesView {
                waiting: old(self)@.evicted(now).waiting,
                ..old(self)@
            }),
    {
        let ids = keys_of(&self.waiting);
        let mut i: usize = 0;
        while i < ids.len()
            invariant
                i <= ids.len(),
                self.responses == old(self).responses,
                self.closed == old(self).closed,
                self.changes == old(self).changes,
                self.grace == old(self).grace,
                forall|id: i32| old(self).waiting@.contains_key(id) ==> ids@.contains(id),
                forall|id: i32|
                    self.waiting@.contains_key(id) <==> old(self).waiting@.contains_key(id) && !(
                    time_after(old(self).waiting@[id], self.grace) <= now && ids@.take(
                        i as int,
                    ).contains(id)),
                forall|id: i32|
                    self.waiting@.contains_key(id) ==> self.waiting@[id] == old(self).waiting@[id],
            decreases ids.len() - i,
        {
            let id = ids[i];
            let stale = match self.waiting.get(&id) {
                Some(deadline) => deadline.saturating_add(self.grace) <= now,
                None => false,
            };
            if stale {
                self.waiting.remove(&id);
            }
            proof {
                let upto = ids@.take(i as int + 1);
                assert(upto.drop_last() == ids@.take(i as int));
                assert(upto.last() == id);
                assert forall|other: i32| upto.contains(other) <==> ids@.take(
                    i as int,
                ).contains(other) || other == id by {
                    if upto.contains(other) {
                        let k = choose|k: int| 0 <= k < upto.len() && upto[k] == other;
                        if k < i {
                            assert(ids@.take(i as int)[k] == other);
                        }
                    }
                    if ids@.take(i as int).contains(other) {
                        let k = choose|k: int|
                            0 <= k < ids@.take(i as int).len() && ids@.take(i as int)[k] == other;
                        assert(upto[k] == other);
                    }
                    if other == id {
                        assert(upto[i as int] == other);
                    }
                }
            }
            i += 1;
        }
        proof {
            assert(ids@.take(i as int) == ids@);
            assert(self@.waiting =~= old(self)@.evicted(now).waiting);
        }
    }
}

/// The keys of a map, in the order in which the map hands them out.
fn keys_of<V>(map: &HashMap<i32, V>) -> (keys: Vec<i32>)
    ensures
        forall|key: i32| map@.contains_key(key) ==> keys@.contains(key),
{
    let mut keys: Vec<i32> = Vec::new();
    let ghost all = spec_keys_iter(map).remaining().unref();
    assert(all.to_set() == map@.dom());
    for key in iter: map.keys()
        invariant
            iter.seq().unref() == all,
            keys@ == all.take(iter.index()),
    {
        keys.push(*key);
        assert(all.take(iter.index() + 1) == all.take(iter.index()).push(*key));
    }
    assert(all.take(all.len() as int) == all);
    assert forall|key: i32| map@.contains_key(key) implies keys@.contains(key) by {
        assert(all.to_set().contains(key));
    }
    keys
}

} // verus!
