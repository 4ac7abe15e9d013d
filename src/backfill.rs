//! The backfill walk behind `get_missing_events`: breadth first over the
//! `prev_events` of locally stored events, from `latest_events`, stopping at
//! `earliest_events` and after `limit` events.
//!
//! The walk is a state machine: the caller looks up the event that
//! [`BackfillWalk::next_lookup`] names and hands the answer to
//! [`BackfillWalk::record`].

use vstd::prelude::*;

verus! {

/// The views of a sequence of strings.
pub open spec fn ids_view(ids: Seq<String>) -> Seq<Seq<char>> {
    ids.map_values(|s: String| s@)
}

/// Whether `id` is one of `ids`.
pub open spec fn lists(ids: Seq<String>, id: Seq<char>) -> bool {
    ids_view(ids).contains(id)
}

pub struct BackfillWalk {
    /// Events to visit, in order; the walk has visited those before `next`.
    pub queue: Vec<String>,
    pub next: usize,
    /// Where the walk stops: these are neither emitted nor expanded.
    pub earliest: Vec<String>,
    pub limit: u64,
    /// The events emitted so far, in the order visited.
    pub events: Vec<String>,
}

/// Whether `id` is one of `ids`.
pub fn contains_id(ids: &Vec<String>, id: &String) -> (r: bool)
    ensures
        r == lists(ids@, id@),
{
    let mut i: usize = 0;
    while i < ids.len()
        invariant
            i <= ids@.len(),
            forall|j: int| 0 <= j < i ==> ids@[j]@ != id@,
        decreases ids@.len() - i,
    {
        if ids[i] == *id {
            assert(ids_view(ids@)[i as int] == id@);
            return true;
        }
        i += 1;
    }
    assert forall|j: int| 0 <= j < ids_view(ids@).len() implies ids_view(ids@)[j] != id@ by {
        assert(ids_view(ids@)[j] == ids@[j]@);
    }
    false
}

impl BackfillWalk {
    /// The walk's invariant: it has emitted no more than `limit` events, and
    /// none of them is one of `earliest`.
    pub open spec fn wf(&self) -> bool {
        &&& self.next <= self.queue@.len()
        &&& self.events@.len() <= self.limit
        &&& forall|i: int| 0 <= i < self.events@.len() ==> !lists(self.earliest@, #[trigger] self.events@[i]@)
    }

    /// Whether the walk is over: nothing is left to visit, or `limit`
    /// events have been emitted.
    pub open spec fn done(&self) -> bool {
        self.next >= self.queue@.len() || self.events@.len() >= self.limit
    }

    /// A walk from `latest_events` that stops at `earliest_events` and
    /// emits at most `limit` events.
    pub fn new(earliest_events: Vec<String>, latest_events: Vec<String>, limit: u64) -> (r: Self)
        ensures
            r.wf(),
            r.queue@ == latest_events@,
            r.next == 0,
            r.earliest@ == earliest_events@,
            r.limit == limit,
            r.events@.len() == 0,
    {
        BackfillWalk { queue: latest_events, next: 0, earliest: earliest_events, limit, events: Vec::new() }
    }

    /// Whether the walk is over.
    pub fn is_done(&self) -> (r: bool)
        requires
            self.wf(),
        ensures
            r == self.done(),
    {
        self.next >= self.queue.len() || self.events.len() as u64 >= self.limit
    }

    /// The event to look up next, or `None` once the walk is over.
    pub fn next_lookup(&self) -> (r: Option<String>)
        requires
            self.wf(),
        ensures
            self.done() ==> r is None,
            !self.done() ==> (r matches Some(id) && id@ == self.queue@[self.next as int]@),
    {
        if self.is_done() {
            None
        } else {
            Some(self.queue[self.next].clone())
        }
    }

    /// Hands over the answer of the lookup that [`Self::next_lookup`] named:
    /// the `prev_events` of that event, or `None` where it is not stored
    /// locally. An event that is stored and is not one of `earliest` is
    /// emitted and its `prev_events` are queued; any other is passed over.
    pub fn record(&mut self, prev_events: Option<Vec<String>>)
        requires
            old(self).wf(),
            !old(self).done(),
        ensures
            final(self).wf(),
            final(self).next == old(self).next + 1,
            final(self).earliest == old(self).earliest,
            final(self).limit == old(self).limit,
            ({
                let id = old(self).queue@[old(self).next as int];
                match prev_events {
                    Some(prev) if !lists(old(self).earliest@, id@) => {
                        &&& final(self).events@ == old(self).events@.push(id)
                        &&& final(self).queue@ == old(self).queue@ + prev@
                    },
                    _ => {
                        &&& final(self).events@ == old(self).events@
                        &&& final(self).queue@ == old(self).queue@
                    },
                }
            }),
    {
        let id = self.queue[self.next].clone();
        assert(id@ == self.queue@[self.next as int]@);
        match prev_events {
            Some(prev) => {
                if !contains_id(&self.earliest, &id) {
                    let ghost q = self.queue@;
                    let mut prev = prev;
                    self.queue.append(&mut prev);
                    assert(self.queue@[self.next as int] == q[self.next as int]);
                    let emitted = self.queue[self.next].clone();
                    self.events.push(emitted);
                }
            },
            None => {},
        }
        let queued = self.queue.len();
        assert(self.next < queued);
        self.next = self.next + 1;
    }
}

/// The `prev_events` of the first stored pair for `id`, if any.
pub open spec fn stored_prev(stored: Seq<(String, Vec<String>)>, id: Seq<char>) -> Option<
    Seq<Seq<char>>,
>
    decreases stored.len(),
{
    if stored.len() == 0 {
        None
    } else if stored[0].0@ == id {
        Some(ids_view(stored[0].1@))
    } else {
        stored_prev(stored.drop_first(), id)
    }
}

/// The events that the walk emits over the stored pairs, from a state of
/// the walk: `queue` with the first `next` visited, and `events` emitted.
pub open spec fn walk_from(
    stored: Seq<(String, Vec<String>)>,
    earliest: Seq<Seq<char>>,
    limit: nat,
    queue: Seq<Seq<char>>,
    next: nat,
    events: Seq<Seq<char>>,
) -> Seq<Seq<char>>
    decreases limit - events.len(), queue.len() - next,
{
    if next >= queue.len() || events.len() >= limit {
        events
    } else {
        let id = queue[next as int];
        match stored_prev(stored, id) {
            Some(prev) if !earliest.contains(id) => walk_from(
                stored,
                earliest,
                limit,
                queue + prev,
                next + 1,
                events.push(id),
            ),
            _ => walk_from(stored, earliest, limit, queue, next + 1, events),
        }
    }
}

/// The backfill walk over the events stored locally, given as pairs of an
/// event id and its `prev_events` (for an id stored twice the first pair
/// counts): the emitted events in the order visited. None of them is one of
/// `earliest_events`, and there are at most `limit` of them.
pub fn walk_stored_events(
    stored: &Vec<(String, Vec<String>)>,
    earliest_events: Vec<String>,
    latest_events: Vec<String>,
    limit: u64,
) -> (r: Vec<String>)
    ensures
        ids_view(r@) == walk_from(
            stored@,
            ids_view(earliest_events@),
            limit as nat,
            ids_view(latest_events@),
            0,
            Seq::empty(),
        ),
        r@.len() <= limit,
        forall|i: int| 0 <= i < r@.len() ==> !lists(earliest_events@, #[trigger] r@[i]@),
{
    let ghost earliest = earliest_events@;
    let ghost result = walk_from(
        stored@,
        ids_view(earliest_events@),
        limit as nat,
        ids_view(latest_events@),
        0,
        Seq::empty(),
    );
    let mut walk = BackfillWalk::new(earliest_events, latest_events, limit);
    assert(ids_view(walk.events@) =~= Seq::<Seq<char>>::empty());
    while !walk.is_done()
        invariant
            walk.wf(),
            walk.earliest@ == earliest,
            walk.limit == limit,
            result == walk_from(
                stored@,
                ids_view(earliest),
                limit as nat,
                ids_view(walk.queue@),
                walk.next as nat,
                ids_view(walk.events@),
            ),
        decreases limit - walk.events@.len(), walk.queue@.len() - walk.next,
    {
        let ghost q = walk.queue@;
        let ghost e = walk.events@;
        let id = walk.next_lookup().unwrap();
        let found = lookup_prev_events(stored, &id);
        walk.record(found);
        proof {
            assert(ids_view(q)[walk.next - 1] == id@);
            if walk.events@.len() > e.len() {
                let prev = found->0;
                assert(ids_view(walk.queue@) =~= ids_view(q) + ids_view(prev@));
                assert(ids_view(walk.events@) =~= ids_view(e).push(id@));
            }
        }
    }
    walk.events
}

/// The `prev_events` of the first stored pair for `id`.
fn lookup_prev_events(stored: &Vec<(String, Vec<String>)>, id: &String) -> (r: Option<Vec<String>>)
    ensures
        r is None ==> stored_prev(stored@, id@) is None,
        r matches Some(prev) ==> stored_prev(stored@, id@) == Some(ids_view(prev@)),
{
    let mut i: usize = 0;
    assert(stored@.subrange(0, stored@.len() as int) =~= stored@);
    while i < stored.len()
        invariant
            i <= stored@.len(),
            stored_prev(stored@, id@) == stored_prev(stored@.subrange(i as int, stored@.len() as int), id@),
        decreases stored@.len() - i,
    {
        let ghost rest = stored@.subrange(i as int, stored@.len() as int);
        assert(rest[0] == stored@[i as int]);
        if stored[i].0 == *id {
            let prev = stored[i].1.clone();
            assert(prev@ == stored@[i as int].1@);
            return Some(prev);
        }
        assert(rest.drop_first() =~= stored@.subrange(i + 1, stored@.len() as int));
        i += 1;
    }
    None
}

} // verus!
