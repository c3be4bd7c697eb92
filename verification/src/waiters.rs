//! Executors parked in a long poll, waiting for work on a target.
//!
//! Waiters are kept in the order in which they were parked, so that work
//! for a target wakes the executor that has waited longest.

use vstd::prelude::*;

verus! {

/// The most executors that may wait on one target at a time. A poll beyond
/// that is answered at once, with nothing.
pub const MAX_WAITERS_PER_TARGET: usize = 1024;

/// A parked poll.
#[derive(Debug)]
pub struct Waiter {
    /// Names the waiter towards the embedding program.
    pub id: u64,
    /// The target polled.
    pub target_name: String,
    /// Batches the executor does not want to hear of.
    pub exclude_batches: Vec<String>,
    /// The constraint groups the executor is part of.
    pub group_membership: Vec<String>,
    /// When the poll gives up, in epoch milliseconds.
    pub deadline: usize,
}

/// A parked poll as plain data.
pub struct WaiterView {
    pub id: u64,
    pub target_name: Seq<char>,
    pub exclude_batches: Seq<Seq<char>>,
    pub group_membership: Seq<Seq<char>>,
    pub deadline: usize,
}

/// The views of a list of strings, in order.
pub open spec fn string_views(strings: Seq<String>) -> Seq<Seq<char>> {
    Seq::new(strings.len(), |i: int| strings[i]@)
}

impl View for Waiter {
    type V = WaiterView;

    open spec fn view(&self) -> WaiterView {
        WaiterView {
            id: self.id,
            target_name: self.target_name@,
            exclude_batches: string_views(self.exclude_batches@),
            group_membership: string_views(self.group_membership@),
            deadline: self.deadline,
        }
    }
}

/// The views of a list of waiters, in order.
pub open spec fn waiter_views(waiters: Seq<Waiter>) -> Seq<WaiterView> {
    Seq::new(waiters.len(), |i: int| waiters[i]@)
}

/// Whether `s` is among `strings`.
pub fn contains_string(strings: &Vec<String>, s: &String) -> (found: bool)
    ensures
        found == string_views(strings@).contains(s@),
{
    let mut i: usize = 0;
    while i < strings.len()
        invariant
            i <= strings.len(),
            forall|j: int| 0 <= j < i ==> string_views(strings@)[j] != s@,
        decreases strings.len() - i,
    {
        if strings[i] == *s {
            assert(string_views(strings@)[i as int] == s@);
            return true;
        }
        i = i + 1;
    }
    false
}

/// A copy of a list of strings.
pub fn duplicate_strings(strings: &Vec<String>) -> (r: Vec<String>)
    ensures
        string_views(r@) == string_views(strings@),
{
    let mut r: Vec<String> = Vec::new();
    let mut i: usize = 0;
    while i < strings.len()
        invariant
            i <= strings.len(),
            r@.len() == i,
            forall|j: int| 0 <= j < i ==> r@[j]@ == strings@[j]@,
        decreases strings.len() - i,
    {
        r.push(strings[i].clone());
        i = i + 1;
    }
    assert(string_views(r@) =~= string_views(strings@));
    r
}

/// The waiters, oldest first, and the id the next one gets.
#[derive(Debug)]
pub struct WaiterRegistry {
    pub waiters: Vec<Waiter>,
    pub next_id: u64,
}

/// The registry as plain data.
pub struct RegistryView {
    pub waiters: Seq<WaiterView>,
    pub next_id: u64,
}

impl View for WaiterRegistry {
    type V = RegistryView;

    open spec fn view(&self) -> RegistryView {
        RegistryView { waiters: waiter_views(self.waiters@), next_id: self.next_id }
    }
}

/// Whether a waiter wants to hear of `batch_id` on `target_name`: it polls
/// that target and has not excluded the batch. Group membership filters
/// nothing.
pub open spec fn wants(w: WaiterView, target_name: Seq<char>, batch_id: Seq<char>) -> bool {
    w.target_name == target_name && !w.exclude_batches.contains(batch_id)
}

/// The position of the oldest waiter from `from` on that wants the batch,
/// or the number of waiters if there is none.
pub open spec fn first_wanting(
    waiters: Seq<WaiterView>,
    target_name: Seq<char>,
    batch_id: Seq<char>,
    from: int,
) -> int
    decreases waiters.len() - from,
{
    if from >= waiters.len() {
        waiters.len() as int
    } else if wants(waiters[from], target_name, batch_id) {
        from
    } else {
        first_wanting(waiters, target_name, batch_id, from + 1)
    }
}

/// New work on a target: the oldest waiter that wants it leaves the
/// registry and is named; the others stay as they are.
pub open spec fn wake_model(r: RegistryView, target_name: Seq<char>, batch_id: Seq<char>) -> (
    RegistryView,
    Option<u64>,
) {
    let at = first_wanting(r.waiters, target_name, batch_id, 0);
    if 0 <= at < r.waiters.len() {
        (RegistryView { waiters: r.waiters.remove(at), ..r }, Some(r.waiters[at].id))
    } else {
        (r, None)
    }
}

/// How many of the waiters poll `target_name`.
pub open spec fn waiting_on(waiters: Seq<WaiterView>, target_name: Seq<char>) -> nat
    decreases waiters.len(),
{
    if waiters.len() == 0 {
        0
    } else {
        waiting_on(waiters.drop_last(), target_name) + if waiters.last().target_name
            == target_name {
            1nat
        } else {
            0nat
        }
    }
}

/// Whether the registry takes one more waiter on `target_name`.
pub open spec fn has_room(r: RegistryView, target_name: Seq<char>) -> bool {
    waiting_on(r.waiters, target_name) < MAX_WAITERS_PER_TARGET && r.next_id < u64::MAX
}

/// A poll parks: if there is room, it joins the end of the line under the
/// next id. Otherwise nothing changes.
pub open spec fn park_model(
    r: RegistryView,
    target_name: Seq<char>,
    exclude_batches: Seq<Seq<char>>,
    group_membership: Seq<Seq<char>>,
    deadline: usize,
) -> (RegistryView, Option<u64>) {
    if has_room(r, target_name) {
        (
            RegistryView {
                waiters: r.waiters.push(
                    WaiterView {
                        id: r.next_id,
                        target_name,
                        exclude_batches,
                        group_membership,
                        deadline,
                    },
                ),
                next_id: (r.next_id + 1) as u64,
            },
            Some(r.next_id),
        )
    } else {
        (r, None)
    }
}

/// The waiters whose deadline is still ahead at `now`, in order.
pub open spec fn remaining(waiters: Seq<WaiterView>, now: usize) -> Seq<WaiterView>
    decreases waiters.len(),
{
    if waiters.len() == 0 {
        Seq::empty()
    } else if waiters.last().deadline > now {
        remaining(waiters.drop_last(), now).push(waiters.last())
    } else {
        remaining(waiters.drop_last(), now)
    }
}

/// The ids of the waiters whose deadline has come at `now`, in order.
pub open spec fn timed_out(waiters: Seq<WaiterView>, now: usize) -> Seq<u64>
    decreases waiters.len(),
{
    if waiters.len() == 0 {
        Seq::empty()
    } else if waiters.last().deadline > now {
        timed_out(waiters.drop_last(), now)
    } else {
        timed_out(waiters.drop_last(), now).push(waiters.last().id)
    }
}

/// Time passes: the waiters whose deadline has come leave the registry.
pub open spec fn expire_waiters_model(r: RegistryView, now: usize) -> (RegistryView, Seq<u64>) {
    (RegistryView { waiters: remaining(r.waiters, now), ..r }, timed_out(r.waiters, now))
}

/// The position of the first waiter from `from` on with this id, or the
/// number of waiters if there is none.
pub open spec fn position_of(waiters: Seq<WaiterView>, id: u64, from: int) -> int
    decreases waiters.len() - from,
{
    if from >= waiters.len() {
        waiters.len() as int
    } else if waiters[from].id == id {
        from
    } else {
        position_of(waiters, id, from + 1)
    }
}

/// A poll is given up: the waiter with this id, if there is one, leaves.
pub open spec fn cancel_model(r: RegistryView, id: u64) -> (RegistryView, bool) {
    let at = position_of(r.waiters, id, 0);
    if 0 <= at < r.waiters.len() {
        (RegistryView { waiters: r.waiters.remove(at), ..r }, true)
    } else {
        (r, false)
    }
}

/// `first_wanting` finds the oldest waiter that wants the batch.
pub proof fn lemma_first_wanting(
    waiters: Seq<WaiterView>,
    target_name: Seq<char>,
    batch_id: Seq<char>,
    from: int,
)
    requires
        0 <= from <= waiters.len(),
    ensures
        from <= first_wanting(waiters, target_name, batch_id, from) <= waiters.len(),
        forall|j: int|
            from <= j < first_wanting(waiters, target_name, batch_id, from) ==> !wants(
                #[trigger] waiters[j],
                target_name,
                batch_id,
            ),
        first_wanting(waiters, target_name, batch_id, from) < waiters.len() ==> wants(
            waiters[first_wanting(waiters, target_name, batch_id, from)],
            target_name,
            batch_id,
        ),
    decreases waiters.len() - from,
{
    if from < waiters.len() && !wants(waiters[from], target_name, batch_id) {
        lemma_first_wanting(waiters, target_name, batch_id, from + 1);
    }
}

/// The oldest waiter that wants the batch is the only position with no
/// wanting waiter before it and a wanting waiter at it.
pub proof fn lemma_first_wanting_is(
    waiters: Seq<WaiterView>,
    target_name: Seq<char>,
    batch_id: Seq<char>,
    k: int,
)
    requires
        0 <= k <= waiters.len(),
        forall|j: int| 0 <= j < k ==> !wants(#[trigger] waiters[j], target_name, batch_id),
        k < waiters.len() ==> wants(waiters[k], target_name, batch_id),
    ensures
        first_wanting(waiters, target_name, batch_id, 0) == k,
{
    lemma_first_wanting(waiters, target_name, batch_id, 0);
    let f = first_wanting(waiters, target_name, batch_id, 0);
    if f < k {
        assert(!wants(waiters[f], target_name, batch_id));
    } else if k < f {
        assert(!wants(waiters[k], target_name, batch_id));
    }
}

/// `position_of` finds the first waiter with the id.
pub proof fn lemma_position_of(waiters: Seq<WaiterView>, id: u64, from: int, k: int)
    requires
        0 <= from <= k <= waiters.len(),
        forall|j: int| from <= j < k ==> (#[trigger] waiters[j]).id != id,
        k < waiters.len() ==> waiters[k].id == id,
    ensures
        position_of(waiters, id, from) == k,
    decreases k - from,
{
    if from < k {
        assert(waiters[from].id != id);
        lemma_position_of(waiters, id, from + 1, k);
    }
}

impl WaiterRegistry {
    /// An empty registry.
    pub fn new() -> (r: WaiterRegistry)
        ensures
            r@ == (RegistryView { waiters: Seq::empty(), next_id: 0 }),
    {
        let r = WaiterRegistry { waiters: Vec::new(), next_id: 0 };
        assert(r@.waiters =~= Seq::empty());
        r
    }

    /// How many waiters poll `target_name`.
    pub fn count(&self, target_name: &String) -> (n: usize)
        ensures
            n == waiting_on(self@.waiters, target_name@),
    {
        let ghost views = self@.waiters;
        let mut n: usize = 0;
        let mut i: usize = 0;
        while i < self.waiters.len()
            invariant
                i <= self.waiters.len(),
                views == self@.waiters,
                n <= i,
                n == waiting_on(views.subrange(0, i as int), target_name@),
            decreases self.waiters.len() - i,
        {
            assert(views.subrange(0, i + 1).drop_last() =~= views.subrange(0, i as int));
            assert(views.subrange(0, i + 1).last() == self.waiters@[i as int]@);
            if self.waiters[i].target_name == *target_name {
                n = n + 1;
            }
            i = i + 1;
        }
        assert(views.subrange(0, i as int) =~= views);
        n
    }

    /// Parks a poll, if there is room for it, and names it.
    pub fn park(
        &mut self,
        target_name: String,
        exclude_batches: Vec<String>,
        group_membership: Vec<String>,
        deadline: usize,
    ) -> (id: Option<u64>)
        ensures
            (final(self)@, id) == park_model(
                old(self)@,
                target_name@,
                string_views(exclude_batches@),
                string_views(group_membership@),
                deadline,
            ),
    {
        if self.count(&target_name) < MAX_WAITERS_PER_TARGET && self.next_id < u64::MAX {
            let id = self.next_id;
            let ghost expected = park_model(
                self@,
                target_name@,
                string_views(exclude_batches@),
                string_views(group_membership@),
                deadline,
            ).0;
            self.waiters.push(
                Waiter { id, target_name, exclude_batches, group_membership, deadline },
            );
            self.next_id = id + 1;
            assert(self@.waiters =~= expected.waiters);
            Some(id)
        } else {
            None
        }
    }

    /// Wakes the oldest waiter that wants to hear of `batch_id` on
    /// `target_name`.
    pub fn wake(&mut self, target_name: &String, batch_id: &String) -> (id: Option<u64>)
        ensures
            (final(self)@, id) == wake_model(old(self)@, target_name@, batch_id@),
    {
        let ghost views = self@.waiters;
        let mut i: usize = 0;
        while i < self.waiters.len()
            invariant
                i <= self.waiters.len(),
                views == self@.waiters,
                *self == *old(self),
                forall|j: int| 0 <= j < i ==> !wants(#[trigger] views[j], target_name@, batch_id@),
            decreases self.waiters.len() - i,
        {
            let waiter = &self.waiters[i];
            assert(views[i as int] == waiter@);
            if waiter.target_name == *target_name && !contains_string(
                &waiter.exclude_batches,
                batch_id,
            ) {
                proof {
                    lemma_first_wanting_is(views, target_name@, batch_id@, i as int);
                }
                let woken = self.waiters.remove(i);
                assert(self@.waiters =~= views.remove(i as int));
                return Some(woken.id);
            }
            i = i + 1;
        }
        proof {
            lemma_first_wanting_is(views, target_name@, batch_id@, views.len() as int);
        }
        None
    }

    /// Gives up the poll with this id.
    pub fn cancel(&mut self, id: u64) -> (found: bool)
        ensures
            (final(self)@, found) == cancel_model(old(self)@, id),
    {
        let ghost views = self@.waiters;
        let mut i: usize = 0;
        while i < self.waiters.len()
            invariant
                i <= self.waiters.len(),
                views == self@.waiters,
                *self == *old(self),
                forall|j: int| 0 <= j < i ==> (#[trigger] views[j]).id != id,
            decreases self.waiters.len() - i,
        {
            assert(views[i as int] == self.waiters@[i as int]@);
            if self.waiters[i].id == id {
                proof {
                    lemma_position_of(views, id, 0, i as int);
                }
                self.waiters.remove(i);
                assert(self@.waiters =~= views.remove(i as int));
                return true;
            }
            i = i + 1;
        }
        proof {
            lemma_position_of(views, id, 0, views.len() as int);
        }
        false
    }

    /// Removes the waiters whose deadline has come at `now`, and names
    /// them, oldest first.
    pub fn expire(&mut self, now: usize) -> (ids: Vec<u64>)
        ensures
            (final(self)@, ids@) == expire_waiters_model(old(self)@, now),
    {
        let ghost views = self@.waiters;
        let ghost mut seen: int = 0;
        let mut ids: Vec<u64> = Vec::new();
        let mut i: usize = 0;
        while i < self.waiters.len()
            invariant
                i <= self.waiters.len(),
                self.next_id == old(self).next_id,
                0 <= seen <= views.len(),
                views.len() - seen == self.waiters.len() - i,
                self@.waiters.subrange(0, i as int) == remaining(views.subrange(0, seen), now),
                forall|j: int|
                    i <= j < self.waiters.len() ==> (#[trigger] self.waiters@[j])@ == views[j - i
                        + seen],
                ids@ == timed_out(views.subrange(0, seen), now),
            decreases self.waiters.len() - i,
        {
            let ghost here = self@.waiters;
            assert(views.subrange(0, seen + 1).drop_last() =~= views.subrange(0, seen));
            assert(views.subrange(0, seen + 1).last() == views[seen]);
            assert(self.waiters@[i as int]@ == views[seen]);
            if self.waiters[i].deadline > now {
                assert(here.subrange(0, i + 1) =~= here.subrange(0, i as int).push(here[i as int]));
                i = i + 1;
            } else {
                let ghost before = self.waiters@;
                let gone = self.waiters.remove(i);
                ids.push(gone.id);
                assert(self@.waiters.subrange(0, i as int) =~= here.subrange(0, i as int));
                assert forall|j: int| i <= j < self.waiters.len() implies (
                #[trigger] self.waiters@[j])@ == views[j - i + seen + 1] by {
                    assert(self.waiters@[j] == before[j + 1]);
                }
            }
            proof {
                seen = seen + 1;
            }
        }
        assert(views.subrange(0, seen) =~= views);
        assert(self@.waiters.subrange(0, i as int) =~= self@.waiters);
        ids
    }
}

} // verus!
