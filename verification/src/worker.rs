//! The work on events: how many at once, in which steps, and with what.

use vstd::prelude::*;
use vstd::string::*;

use crate::adapters;
use crate::adapters::Outcome;
use crate::config::Settings;
use crate::config;
use crate::db;
use crate::db::{Event, Store};
use crate::dispatch;
use crate::dispatch::{Task, TaskKind};
use crate::foreign;
use crate::gh_writeback;
use crate::gh_writeback::RepoRef;
use crate::json;
use crate::json::Json;
use crate::text;

verus! {

// ---------------------------------------------------------------------------
// Concurrency
// ---------------------------------------------------------------------------

/// The issues that are being worked on, no more than a number of them, each
/// once.
#[derive(Debug)]
pub struct Inflight {
    keys: Vec<(String, String, i64)>,
    capacity: usize,
}

pub type Key = (Seq<char>, Seq<char>, int);

pub open spec fn keys_view(keys: Seq<(String, String, i64)>) -> Seq<Key> {
    keys.map_values(|k: (String, String, i64)| (k.0@, k.1@, k.2 as int))
}

/// `after` are the issues that are worked on once `key` is released: all others
/// stay.
pub open spec fn is_released(before: Seq<Key>, key: Key, after: Seq<Key>) -> bool {
    &&& !after.contains(key)
    &&& forall|k: Key| k != key ==> (#[trigger] after.contains(k) == before.contains(k))
    &&& before.contains(key) ==> after.len() == before.len() - 1
    &&& !before.contains(key) ==> after == before
}

/// What became of the wish to work on an issue.
#[derive(Debug, Clone, Copy, PartialEq, Eq, Structural)]
pub enum Reservation {
    /// As many issues as may be are worked on.
    Full,
    /// The issue is worked on already.
    Busy,
    /// The issue is to be worked on, and is released when that is over.
    Reserved,
}

impl Inflight {
    /// The issues that are worked on.
    pub closed spec fn held(&self) -> Seq<Key> {
        keys_view(self.keys@)
    }

    /// How many issues may be worked on at once.
    pub closed spec fn limit(&self) -> nat {
        self.capacity as nat
    }

    /// No issue is worked on twice, and no more issues than may be.
    pub open spec fn valid(&self) -> bool {
        &&& self.held().no_duplicates()
        &&& self.held().len() <= self.limit()
        &&& 0 < self.limit()
    }

    /// The worker of some settings, unless they allow no work at all.
    pub fn start(max_concurrency: usize) -> (r: Option<Inflight>)
        ensures
            r is Some <==> max_concurrency > 0,
            r matches Some(i) ==> i.valid() && i.held().len() == 0 && i.limit() == max_concurrency,
    {
        if max_concurrency == 0 {
            return None;
        }
        Some(Inflight { keys: Vec::new(), capacity: max_concurrency })
    }

    fn find(&self, owner: &str, repo: &str, number: i64) -> (r: usize)
        ensures
            r <= self.keys@.len(),
            r < self.keys@.len() ==> self.held()[r as int] == (owner@, repo@, number as int),
            r == self.keys@.len() ==> !self.held().contains((owner@, repo@, number as int)),
    {
        let ghost all = self.held();
        let mut i: usize = 0;
        while i < self.keys.len()
            invariant
                i <= self.keys@.len(),
                all == keys_view(self.keys@),
                all == self.held(),
                forall|k: int| 0 <= k < i ==> #[trigger] all[k] != (owner@, repo@, number as int),
            decreases self.keys.len() - i,
        {
            assert(all[i as int] == (
                self.keys@[i as int].0@,
                self.keys@[i as int].1@,
                self.keys@[i as int].2 as int,
            ));
            if text::same_text(self.keys[i].0.as_str(), owner) && text::same_text(
                self.keys[i].1.as_str(),
                repo,
            ) && self.keys[i].2 == number {
                return i;
            }
            i += 1;
        }
        i
    }

    /// Asks to work on an issue.
    pub fn reserve(&mut self, owner: &str, repo: &str, number: i64) -> (r: Reservation)
        requires
            old(self).valid(),
        ensures
            final(self).valid(),
            final(self).limit() == old(self).limit(),
            r == if old(self).held().len() == old(self).limit() {
                Reservation::Full
            } else if old(self).held().contains((owner@, repo@, number as int)) {
                Reservation::Busy
            } else {
                Reservation::Reserved
            },
            final(self).held() == if r == Reservation::Reserved {
                old(self).held().push((owner@, repo@, number as int))
            } else {
                old(self).held()
            },
    {
        if self.keys.len() == self.capacity {
            return Reservation::Full;
        }
        let ghost before = self.held();
        let i: usize = self.find(owner, repo, number);
        if i < self.keys.len() {
            assert(before.contains((owner@, repo@, number as int)));
            return Reservation::Busy;
        }
        self.keys.push((owner.to_owned(), repo.to_owned(), number));
        assert(self.held() =~= before.push((owner@, repo@, number as int)));
        assert(self.held().no_duplicates()) by {
            let k = (owner@, repo@, number as int);
            assert forall|a: int, b: int|
                0 <= a < before.len() + 1 && 0 <= b < before.len() + 1 && a
                    != b implies before.push(k)[a] != before.push(k)[b] by {
                if a == before.len() && b < before.len() {
                    assert(before.contains(before[b]));
                } else if b == before.len() && a < before.len() {
                    assert(before.contains(before[a]));
                }
            }
        }
        Reservation::Reserved
    }

    /// Takes back the last reservation.
    fn unreserve(&mut self)
        requires
            old(self).valid(),
            old(self).held().len() > 0,
        ensures
            final(self).valid(),
            final(self).limit() == old(self).limit(),
            final(self).held() == old(self).held().drop_last(),
    {
        let ghost before = self.held();
        let _ = self.keys.pop();
        assert(self.held() =~= before.drop_last());
    }

    /// Releases an issue, however the work on it ended.
    pub fn release(&mut self, owner: &str, repo: &str, number: i64)
        requires
            old(self).valid(),
        ensures
            final(self).valid(),
            final(self).limit() == old(self).limit(),
            is_released(old(self).held(), (owner@, repo@, number as int), final(self).held()),
    {
        let ghost before = self.held();
        let ghost key = (owner@, repo@, number as int);
        let i: usize = self.find(owner, repo, number);
        if i < self.keys.len() {
            self.keys.remove(i);
            proof {
                assert(self.held() =~= before.remove(i as int));
                let after = before.remove(i as int);
                assert(before[i as int] == key);
                assert(before.contains(key));
                assert forall|k: Key| k != key implies (#[trigger] after.contains(k)
                    == before.contains(k)) by {
                    if before.contains(k) {
                        let a = choose|a: int| 0 <= a < before.len() && before[a] == k;
                        if a < i {
                            assert(after[a] == k);
                        } else {
                            assert(after[a - 1] == k);
                        }
                    }
                    if after.contains(k) {
                        let a = choose|a: int| 0 <= a < after.len() && after[a] == k;
                        if a < i {
                            assert(before[a] == k);
                        } else {
                            assert(before[a + 1] == k);
                        }
                    }
                }
                if after.contains(key) {
                    let a = choose|a: int| 0 <= a < after.len() && after[a] == key;
                    if a < i {
                        assert(before[a] == before[i as int]);
                    } else {
                        assert(before[a + 1] == before[i as int]);
                    }
                }
                assert(after.no_duplicates()) by {
                    assert forall|a: int, b: int|
                        0 <= a < after.len() && 0 <= b < after.len() && a != b implies after[a]
                        != after[b] by {
                        let x = if a < i {
                            a
                        } else {
                            a + 1
                        };
                        let y = if b < i {
                            b
                        } else {
                            b + 1
                        };
                        assert(before[x] != before[y]);
                    }
                }
            }
        }
    }
}

/// What becomes of an event that waits.
#[derive(Debug, Clone, Copy, PartialEq, Eq, Structural)]
pub enum Start {
    /// No more events can be taken for now.
    Stop,
    /// The event is left alone: its issue is worked on, or the event does not
    /// wait any more.
    Leave,
    /// The event is to be worked on.
    Work,
}

/// What becomes of an event, `keys` being the issues that are worked on, at
/// most `limit` of them, and `pending` saying whether the event waits.
pub open spec fn start_of(keys: Seq<Key>, limit: nat, key: Key, pending: bool) -> Start {
    if keys.len() == limit {
        Start::Stop
    } else if keys.contains(key) || !pending {
        Start::Leave
    } else {
        Start::Work
    }
}

/// Takes an event, if its issue is not worked on and there is room for it. The
/// issue is held from then on, and only then.
pub fn take_event(inflight: &mut Inflight, store: &mut Store, row: &Event, now: u64) -> (r: Start)
    requires
        old(inflight).valid(),
        old(store)@.valid(),
    ensures
        final(inflight).valid(),
        final(store)@.valid(),
        ({
            let key = (row@.owner, row@.repo, row@.number);
            let pending = old(store)@.is_pending(row@.delivery_id);
            &&& final(inflight).limit() == old(inflight).limit()
            &&& r == start_of(old(inflight).held(), old(inflight).limit(), key, pending)
            &&& r == Start::Work ==> final(inflight).held() == old(inflight).held().push(key)
            &&& r != Start::Work ==> final(inflight).held() == old(inflight).held()
            &&& r == Start::Work ==> final(store)@ == old(store)@.claimed(
                row@.delivery_id,
                now as int,
            )
            &&& r != Start::Work ==> final(store)@ == old(store)@
        }),
{
    match inflight.reserve(row.owner.as_str(), row.repo.as_str(), row.number) {
        Reservation::Full => return Start::Stop,
        Reservation::Busy => return Start::Leave,
        Reservation::Reserved => {},
    }
    if store.claim(row.delivery_id.as_str(), now) {
        Start::Work
    } else {
        inflight.unreserve();
        Start::Leave
    }
}

/// The milliseconds between two rounds.
pub const ROUND_PAUSE_MILLIS: u64 = 1000;

/// The seconds that a run of the engine may take.
pub const RUN_SECONDS: u64 = 3600;

/// The number of events that one round looks at.
pub const ROUND_LIMIT: usize = 50;

pub open spec fn key_of(e: db::EventModel) -> Key {
    (e.owner, e.repo, e.number)
}

/// One round over events that wait: the issues that are worked on after it, the
/// store, and the events that were taken, in their order.
pub open spec fn round(
    keys: Seq<Key>,
    limit: nat,
    store: db::StoreModel,
    rows: Seq<db::EventModel>,
    now: int,
) -> (Seq<Key>, db::StoreModel, Seq<db::EventModel>)
    decreases rows.len(),
{
    if rows.len() == 0 {
        (keys, store, Seq::empty())
    } else {
        let row = rows[0];
        match start_of(keys, limit, key_of(row), store.is_pending(row.delivery_id)) {
            Start::Stop => (keys, store, Seq::empty()),
            Start::Leave => round(keys, limit, store, rows.drop_first(), now),
            Start::Work => {
                let rest = round(
                    keys.push(key_of(row)),
                    limit,
                    store.claimed(row.delivery_id, now),
                    rows.drop_first(),
                    now,
                );
                (rest.0, rest.1, seq![row] + rest.2)
            },
        }
    }
}

/// The events that a round looks at: those that wait, the oldest first.
pub open spec fn round_rows(store: db::StoreModel) -> Seq<db::EventModel> {
    db::at_most(db::answers(store.events, db::Query::Pending), ROUND_LIMIT as int)
}

/// Takes as many of the events that wait as can be worked on, and hands them
/// out.
pub fn take_waiting(inflight: &mut Inflight, store: &mut Store, now: u64) -> (r: Vec<Event>)
    requires
        old(inflight).valid(),
        old(store)@.valid(),
    ensures
        final(inflight).valid(),
        final(store)@.valid(),
        final(inflight).limit() == old(inflight).limit(),
        (final(inflight).held(), final(store)@, db::events_view(r@)) == round(
            old(inflight).held(),
            old(inflight).limit(),
            old(store)@,
            round_rows(old(store)@),
            now as int,
        ),
{
    let rows = store.get_pending(ROUND_LIMIT);
    let ghost all = db::events_view(rows@);
    let ghost limit = inflight.limit();
    let ghost whole = round(inflight.held(), limit, store@, all, now as int);
    let mut taken: Vec<Event> = Vec::new();
    let mut i: usize = 0;
    assert(all.skip(0) =~= all);
    assert(db::events_view(taken@) + whole.2 =~= whole.2);
    while i < rows.len()
        invariant
            i <= rows.len(),
            all == db::events_view(rows@),
            inflight.valid(),
            store@.valid(),
            inflight.limit() == limit,
            limit == old(inflight).limit(),
            whole == round(
                old(inflight).held(),
                limit,
                old(store)@,
                round_rows(old(store)@),
                now as int,
            ),
            ({
                let rest = round(
                    inflight.held(),
                    limit,
                    store@,
                    all.skip(i as int),
                    now as int,
                );
                whole == (rest.0, rest.1, db::events_view(taken@) + rest.2)
            }),
        decreases rows.len() - i,
    {
        let ghost left = all.skip(i as int);
        let ghost before = db::events_view(taken@);
        assert(left[0] == rows@[i as int]@);
        assert(left.drop_first() =~= all.skip(i + 1));
        match take_event(inflight, store, &rows[i], now) {
            Start::Stop => {
                assert(before + Seq::<db::EventModel>::empty() =~= before);
                return taken;
            },
            Start::Leave => {},
            Start::Work => {
                taken.push(rows[i].copy());
                assert(db::events_view(taken@) =~= before.push(left[0]));
                let ghost rest = round(
                    inflight.held(),
                    limit,
                    store@,
                    all.skip(i + 1),
                    now as int,
                );
                assert(before + (seq![left[0]] + rest.2) =~= before.push(left[0]) + rest.2);
            },
        }
        i += 1;
    }
    assert(all.skip(i as int).len() == 0);
    assert(db::events_view(taken@) + Seq::<db::EventModel>::empty() =~= db::events_view(taken@));
    taken
}

proof fn lemma_claimed(store: db::StoreModel, id: Seq<char>, now: int)
    requires
        store.valid(),
    ensures
        store.claimed(id, now).valid(),
        forall|other: Seq<char>|
            other != id ==> #[trigger] store.claimed(id, now).is_pending(other)
                == store.is_pending(other),
        !store.claimed(id, now).is_pending(id),
{
    db::law_event_is_claimed_once(store, id, None, now);
    let after = store.claimed(id, now);
    db::lemma_event_index(store.events, id);
    assert forall|other: Seq<char>| other != id implies #[trigger] after.is_pending(other)
        == store.is_pending(other) by {
        db::lemma_event_index(store.events, other);
        db::lemma_event_index(after.events, other);
        let a = db::event_index(store.events, other);
        let b = db::event_index(after.events, other);
        if a < b && a < store.events.len() {
            assert(after.events[a].delivery_id != other);
        }
        if b < a && b < store.events.len() {
            assert(store.events[b].delivery_id != other);
        }
    }
    assert forall|i: int, j: int| 0 <= i < j < after.events.len() implies (
    #[trigger] after.events[i]).delivery_id != (#[trigger] after.events[j]).delivery_id by {
        assert(store.events[i].delivery_id != store.events[j].delivery_id);
    }
}

proof fn lemma_round(
    keys: Seq<Key>,
    limit: nat,
    store: db::StoreModel,
    rows: Seq<db::EventModel>,
    now: int,
)
    requires
        store.valid(),
        keys.no_duplicates(),
        keys.len() <= limit,
        db::ids_differ(rows),
    ensures
        ({
            let (held, after, taken) = round(keys, limit, store, rows, now);
            &&& after.valid()
            &&& held == keys + taken.map_values(|e: db::EventModel| key_of(e))
            &&& held.no_duplicates()
            &&& held.len() <= limit
            &&& forall|i: int|
                0 <= i < taken.len() ==> rows.contains(#[trigger] taken[i]) && !after.is_pending(
                    taken[i].delivery_id,
                )
            &&& forall|id: Seq<char>|
                (forall|j: int| 0 <= j < rows.len() ==> (#[trigger] rows[j]).delivery_id != id)
                    ==> #[trigger] after.is_pending(id) == store.is_pending(id)
            &&& forall|j: int|
                0 <= j < rows.len() && store.is_pending((#[trigger] rows[j]).delivery_id) ==> {
                    ||| taken.contains(rows[j])
                    ||| held.contains(key_of(rows[j]))
                    ||| held.len() == limit
                }
        }),
    decreases rows.len(),
{
    let of = |e: db::EventModel| key_of(e);
    let (held, after, taken) = round(keys, limit, store, rows, now);
    if rows.len() == 0 {
        assert(held =~= keys + taken.map_values(of));
    } else {
        let row = rows[0];
        let left = rows.drop_first();
        assert(db::ids_differ(left));
        match start_of(keys, limit, key_of(row), store.is_pending(row.delivery_id)) {
            Start::Stop => {
                assert(held =~= keys + taken.map_values(of));
            },
            Start::Leave => {
                lemma_round(keys, limit, store, left, now);
                assert forall|i: int| 0 <= i < taken.len() implies rows.contains(
                    #[trigger] taken[i],
                ) by {
                    let k = choose|k: int| 0 <= k < left.len() && left[k] == taken[i];
                    assert(rows[k + 1] == taken[i]);
                }
                assert forall|j: int|
                    0 <= j < rows.len() && store.is_pending(
                        (#[trigger] rows[j]).delivery_id,
                    ) implies taken.contains(rows[j]) || held.contains(key_of(rows[j]))
                    || held.len() == limit by {
                    if j == 0 {
                        let k = choose|k: int| 0 <= k < keys.len() && keys[k] == key_of(row);
                        assert(held[k] == key_of(row));
                    } else {
                        assert(left[j - 1] == rows[j]);
                    }
                }
                assert forall|id: Seq<char>|
                    (forall|j: int|
                        0 <= j < rows.len() ==> (#[trigger] rows[j]).delivery_id
                            != id) implies #[trigger] after.is_pending(id) == store.is_pending(
                    id,
                ) by {
                    assert forall|j: int| 0 <= j < left.len() implies (
                    #[trigger] left[j]).delivery_id != id by {
                        assert(rows[j + 1] == left[j]);
                    }
                }
            },
            Start::Work => {
                let more = keys.push(key_of(row));
                let next = store.claimed(row.delivery_id, now);
                lemma_claimed(store, row.delivery_id, now);
                assert(more.no_duplicates()) by {
                    assert forall|a: int, b: int|
                        0 <= a < more.len() && 0 <= b < more.len() && a != b implies more[a]
                        != more[b] by {
                        if a == keys.len() {
                            assert(keys.contains(keys[b]));
                        } else if b == keys.len() {
                            assert(keys.contains(keys[a]));
                        }
                    }
                }
                lemma_round(more, limit, next, left, now);
                let rest = round(more, limit, next, left, now);
                assert(taken =~= seq![row] + rest.2);
                assert(held =~= keys + taken.map_values(of));
                assert forall|j: int| 0 <= j < left.len() implies (
                #[trigger] left[j]).delivery_id != row.delivery_id by {
                    assert(rows[j + 1] == left[j]);
                    assert(rows[0].delivery_id != rows[j + 1].delivery_id);
                }
                assert(!after.is_pending(row.delivery_id));
                assert forall|i: int| 0 <= i < taken.len() implies rows.contains(
                    #[trigger] taken[i],
                ) && !after.is_pending(taken[i].delivery_id) by {
                    if i == 0 {
                        assert(rows[0] == taken[0]);
                    } else {
                        assert(taken[i] == rest.2[i - 1]);
                        let k = choose|k: int| 0 <= k < left.len() && left[k] == taken[i];
                        assert(rows[k + 1] == taken[i]);
                    }
                }
                assert forall|j: int|
                    0 <= j < rows.len() && store.is_pending(
                        (#[trigger] rows[j]).delivery_id,
                    ) implies taken.contains(rows[j]) || held.contains(key_of(rows[j]))
                    || held.len() == limit by {
                    if j == 0 {
                        assert(taken[0] == rows[0]);
                    } else {
                        assert(left[j - 1] == rows[j]);
                        assert(next.is_pending(rows[j].delivery_id));
                        if rest.2.contains(rows[j]) {
                            let k = choose|k: int|
                                0 <= k < rest.2.len() && rest.2[k] == rows[j];
                            assert(taken[k + 1] == rows[j]);
                        }
                    }
                }
                assert forall|id: Seq<char>|
                    (forall|j: int|
                        0 <= j < rows.len() ==> (#[trigger] rows[j]).delivery_id
                            != id) implies #[trigger] after.is_pending(id) == store.is_pending(
                    id,
                ) by {
                    assert(rows[0].delivery_id != id);
                    assert forall|j: int| 0 <= j < left.len() implies (
                    #[trigger] left[j]).delivery_id != id by {
                        assert(rows[j + 1] == left[j]);
                    }
                    assert(next.is_pending(id) == store.is_pending(id));
                }
            },
        }
    }
}

/// A round takes no event of an issue that is worked on, no two events of one
/// issue, and no more events than there is room for. It takes only events that
/// wait, and those do not wait any more.
pub proof fn law_round_is_safe(keys: Seq<Key>, limit: nat, store: db::StoreModel, now: int)
    requires
        store.valid(),
        keys.no_duplicates(),
        keys.len() <= limit,
    ensures
        ({
            let (held, after, taken) = round(keys, limit, store, round_rows(store), now);
            &&& held == keys + taken.map_values(|e: db::EventModel| key_of(e))
            &&& held.no_duplicates()
            &&& held.len() <= limit
            &&& forall|i: int|
                0 <= i < taken.len() ==> round_rows(store).contains(#[trigger] taken[i])
                    && !after.is_pending(taken[i].delivery_id)
        }),
{
    lemma_round_rows(store);
    lemma_round(keys, limit, store, round_rows(store), now);
}

proof fn lemma_round_rows(store: db::StoreModel)
    requires
        store.valid(),
    ensures
        db::ids_differ(round_rows(store)),
        forall|i: int|
            0 <= i < round_rows(store).len() ==> store.is_pending(
                (#[trigger] round_rows(store)[i]).delivery_id,
            ),
{
    let found = db::answers(store.events, db::Query::Pending);
    let rows = round_rows(store);
    db::law_answers_hold_each_event_once(store, db::Query::Pending);
    assert forall|i: int, j: int| 0 <= i < j < rows.len() implies (
    #[trigger] rows[i]).delivery_id != (#[trigger] rows[j]).delivery_id by {
        assert(rows[i] == found[i] && rows[j] == found[j]);
    }
    assert forall|i: int| 0 <= i < rows.len() implies store.is_pending(
        (#[trigger] rows[i]).delivery_id,
    ) by {
        let e = rows[i];
        assert(found[i] == e);
        assert(found.contains(e));
        db::law_pending_events_are_those_that_wait(store.events, e);
        let k = choose|k: int| 0 <= k < store.events.len() && store.events[k] == e;
        db::lemma_event_index(store.events, e.delivery_id);
        let x = db::event_index(store.events, e.delivery_id);
        if x < k {
            assert(store.events[x].delivery_id != store.events[k].delivery_id);
        }
    }
}

/// A round leaves no event behind that could be worked on: each one that it
/// looks at is taken, or its issue is worked on, or there is no more room.
pub proof fn law_round_leaves_nothing_idle(
    keys: Seq<Key>,
    limit: nat,
    store: db::StoreModel,
    now: int,
    i: int,
)
    requires
        store.valid(),
        keys.no_duplicates(),
        keys.len() <= limit,
        0 <= i < round_rows(store).len(),
    ensures
        ({
            let (held, after, taken) = round(keys, limit, store, round_rows(store), now);
            let row = round_rows(store)[i];
            ||| taken.contains(row)
            ||| held.contains(key_of(row))
            ||| held.len() == limit
        }),
{
    lemma_round_rows(store);
    lemma_round(keys, limit, store, round_rows(store), now);
}

/// An event that was taken is worked on alone: its issue is held, as long as it
/// is no event of the issue is taken, and the event itself does not wait any
/// more.
pub proof fn law_issue_is_worked_on_alone(
    keys: Seq<Key>,
    limit: nat,
    store: db::StoreModel,
    row: db::EventModel,
    later: Seq<Key>,
    other_waits: bool,
    now: int,
)
    requires
        start_of(
            keys,
            limit,
            (row.owner, row.repo, row.number),
            store.is_pending(row.delivery_id),
        ) == Start::Work,
        later.contains((row.owner, row.repo, row.number)),
    ensures
        keys.push((row.owner, row.repo, row.number)).contains((row.owner, row.repo, row.number)),
        start_of(later, limit, (row.owner, row.repo, row.number), other_waits) != Start::Work,
        !store.claimed(row.delivery_id, now).is_pending(row.delivery_id),
{
    let key = (row.owner, row.repo, row.number);
    assert(keys.push(key)[keys.len() as int] == key);
    db::law_event_is_claimed_once(store, row.delivery_id, None, now);
}

/// An issue that is released can be worked on again at once: there is room for
/// it, and the next event of it that waits is taken.
pub proof fn law_released_issue_can_be_taken(
    before: Seq<Key>,
    limit: nat,
    key: Key,
    after: Seq<Key>,
)
    requires
        before.len() <= limit,
        before.contains(key),
        is_released(before, key, after),
    ensures
        start_of(after, limit, key, true) == Start::Work,
{
}

// ---------------------------------------------------------------------------
// What an event is worked on with
// ---------------------------------------------------------------------------

/// The default branch that a delivery names, `main` where it names none.
pub open spec fn default_branch_in(payload: json::Tree) -> Seq<char> {
    match payload.text_at2("repository"@, "default_branch"@) {
        Some(b) if b.len() > 0 => b,
        _ => "main"@,
    }
}

/// The default branch that a delivery names, `main` where it names none.
pub fn default_branch<'a>(payload: &'a Json) -> (r: &'a str)
    ensures
        r@ == default_branch_in(payload@),
{
    match payload.text_at2("repository", "default_branch") {
        Some(b) => if b.is_empty() {
            "main"
        } else {
            b
        },
        None => "main",
    }
}

/// The session directory of an issue.
pub open spec fn session_dir_of(
    root: Seq<char>,
    owner: Seq<char>,
    repo: Seq<char>,
    number: int,
) -> Seq<char> {
    text::joined(root, crate::sandbox::issue_dir(owner, repo, number))
}

/// The preferred model, or none.
pub open spec fn first_model(models: Seq<char>) -> Seq<char> {
    let list = text::list_entries(models);
    if list.len() > 0 {
        list[0]
    } else {
        Seq::empty()
    }
}

/// An event that goes on with earlier work: a comment or a review.
pub open spec fn is_follow_up(event_type: Seq<char>) -> bool {
    event_type == "issue_comment"@ || event_type == "pull_request_review"@
}

/// What an event is worked on with.
#[derive(Debug)]
pub struct EventPlan {
    pub task: Task,
    pub repo_ref: RepoRef,
    pub repo_url: String,
    pub default_branch: String,
    pub session_dir: String,
    pub model: String,
    /// The engine goes on with the session instead of starting one.
    pub resume: bool,
}

/// What a plan stands for.
pub struct EventPlanModel {
    pub task: dispatch::TaskModel,
    pub owner: Seq<char>,
    pub repo: Seq<char>,
    pub number: int,
    pub repo_url: Seq<char>,
    pub default_branch: Seq<char>,
    pub session_dir: Seq<char>,
    pub model: Seq<char>,
    pub resume: bool,
}

impl View for EventPlan {
    type V = EventPlanModel;

    open spec fn view(&self) -> EventPlanModel {
        EventPlanModel {
            task: self.task@,
            owner: self.repo_ref.owner@,
            repo: self.repo_ref.repo@,
            number: self.repo_ref.number as int,
            repo_url: self.repo_url@,
            default_branch: self.default_branch@,
            session_dir: self.session_dir@,
            model: self.model@,
            resume: self.resume,
        }
    }
}

/// What an event is worked on with, `task` being the work that it calls for
/// and `prior` the session of an earlier event of the issue.
pub open spec fn plan_with(
    event_type: Seq<char>,
    owner: Seq<char>,
    repo: Seq<char>,
    number: int,
    payload: json::Tree,
    task: dispatch::TaskModel,
    prior: Option<Seq<char>>,
    settings: config::SettingsModel,
) -> EventPlanModel {
    let resume = is_follow_up(event_type) && prior is Some;
    EventPlanModel {
        task,
        owner,
        repo,
        number,
        repo_url: "https://github.com/"@ + owner + "/"@ + repo + ".git"@,
        default_branch: default_branch_in(payload),
        session_dir: if resume {
            prior->0
        } else {
            session_dir_of(settings.session_dir, owner, repo, number)
        },
        model: first_model(settings.model),
        resume,
    }
}

/// Plans the work on an event, its task being given.
pub fn plan_task(
    row: &Event,
    payload: &Json,
    task: Task,
    prior: Option<&str>,
    settings: &Settings,
) -> (r: EventPlan)
    ensures
        r@ == plan_with(
            row@.event_type,
            row@.owner,
            row@.repo,
            row@.number,
            payload@,
            task@,
            json::text_of(prior),
            settings@,
        ),
{
    let mut repo_url = "https://github.com/".to_owned();
    repo_url.append(row.owner.as_str());
    repo_url.append("/");
    repo_url.append(row.repo.as_str());
    repo_url.append(".git");
    let follow_up = text::same_text(row.event_type.as_str(), "issue_comment") || text::same_text(
        row.event_type.as_str(),
        "pull_request_review",
    );
    let mut name = row.owner.clone();
    name.append("__");
    name.append(row.repo.as_str());
    name.append("__");
    name.append(crate::decimal::decimal_i64(row.number).as_str());
    let fresh = text::join_path(settings.session_dir.as_str(), name.as_str());
    let (session_dir, resume) = match prior {
        Some(dir) => if follow_up {
            (dir.to_owned(), true)
        } else {
            (fresh, false)
        },
        None => (fresh, false),
    };
    let models = settings.models();
    let model = if models.len() > 0 {
        assert(text::texts(models@)[0] == models@[0]@);
        models[0].clone()
    } else {
        String::new()
    };
    EventPlan {
        task,
        repo_ref: RepoRef { owner: row.owner.clone(), repo: row.repo.clone(), number: row.number },
        repo_url,
        default_branch: default_branch(payload).to_owned(),
        session_dir,
        model,
        resume,
    }
}

/// What an event is worked on with, if its title and body read `lowered` in
/// lower case; nothing where it calls for no work.
pub open spec fn plan_for(
    row: db::EventModel,
    payload: json::Tree,
    lowered: Seq<char>,
    prior: Option<Seq<char>>,
    settings: config::SettingsModel,
) -> Option<EventPlanModel> {
    match dispatch::task_for(row.event_type, payload, lowered) {
        None => None,
        Some(task) => Some(
            plan_with(
                row.event_type,
                row.owner,
                row.repo,
                row.number,
                payload,
                task,
                prior,
                settings,
            ),
        ),
    }
}

pub open spec fn plan_view(r: Option<EventPlan>) -> Option<EventPlanModel> {
    match r {
        Some(plan) => Some(plan@),
        None => None,
    }
}

/// Plans the work on an event; nothing where it calls for none, so that an
/// event that is ignored starts no work.
pub fn plan_event(row: &Event, payload: &Json, prior: Option<&str>, settings: &Settings) -> (r:
    Option<EventPlan>)
    ensures
        plan_view(r) == plan_for(
            row@,
            payload@,
            foreign::lowercase_of(dispatch::searched_text(payload@)),
            json::text_of(prior),
            settings@,
        ),
        vstd::utf8::is_ascii_chars(dispatch::searched_text(payload@)) ==> plan_view(r) == plan_for(
            row@,
            payload@,
            foreign::ascii_lowercase(dispatch::searched_text(payload@)),
            json::text_of(prior),
            settings@,
        ),
{
    match dispatch::classify_and_build_task(row.event_type.as_str(), payload) {
        Some(task) => Some(plan_task(row, payload, task, prior, settings)),
        None => None,
    }
}

/// The record of an outcome.
pub open spec fn outcome_record(outcome: adapters::OutcomeModel, kind: TaskKind) -> json::Tree {
    json::Tree::Object(
        seq![
            ("kind"@, json::Tree::Text(kind.name())),
            ("status"@, json::Tree::Text(outcome.status.name())),
            ("summary"@, json::Tree::Text(outcome.summary)),
            ("pr_body"@, json::Tree::Text(outcome.pr_body)),
            ("comment"@, json::Tree::Text(outcome.comment)),
            ("branch"@, json::Tree::Text(outcome.branch)),
        ],
    )
}

/// The record of an outcome, and the file that it is written to.
pub fn write_outcome(session_dir: &str, outcome: &Outcome, kind: TaskKind) -> (r: (String, Json))
    ensures
        r.0@ == text::joined(session_dir@, "outcome.json"@),
        r.1@ == outcome_record(outcome@, kind),
{
    let members = vec![
        Json::text_member("kind", kind.to_text().as_str()),
        Json::text_member("status", outcome.status.to_text().as_str()),
        Json::text_member("summary", outcome.summary.as_str()),
        Json::text_member("pr_body", outcome.pr_body.as_str()),
        Json::text_member("comment", outcome.comment.as_str()),
        Json::text_member("branch", outcome.branch.as_str()),
    ];
    assert(json::members_of(members@) =~= outcome_record(outcome@, kind)->Object_0);
    (text::join_path(session_dir, "outcome.json"), Json::object(members))
}

// ---------------------------------------------------------------------------
// Steps
// ---------------------------------------------------------------------------

/// The steps of the work on an event.
#[derive(Debug, Clone, Copy, PartialEq, Eq, Structural)]
pub enum Stage {
    /// Prepare the checkout.
    Checkout,
    /// Run the engine.
    Engine,
    /// Write the record of the outcome.
    Record,
    /// Write the outcome back to GitHub.
    WriteBack,
    /// Schedule the closing of a question.
    Schedule,
    /// Mark the event as done, with its session.
    MarkDone,
    /// Mark the event as done, without a session.
    MarkIgnored,
    /// Remove the checkout.
    Cleanup,
    /// Mark the event as failed.
    MarkFailed,
    /// Nothing more is to be done.
    Over,
}

/// The first step: an event whose payload cannot be read has failed, and one
/// that calls for no work is done.
pub open spec fn first_stage(readable: bool, planned: bool) -> Stage {
    if !readable {
        Stage::MarkFailed
    } else if planned {
        Stage::Checkout
    } else {
        Stage::MarkIgnored
    }
}

/// The step after one that went well or not. What fails before the event is
/// marked as done fails the event; a failed cleanup does not.
pub open spec fn stage_after(stage: Stage, autoclose: bool, success: bool) -> Stage {
    match stage {
        Stage::Cleanup | Stage::MarkFailed | Stage::Over => Stage::Over,
        _ => if !success {
            Stage::MarkFailed
        } else {
            match stage {
                Stage::Checkout => Stage::Engine,
                Stage::Engine => Stage::Record,
                Stage::Record => Stage::WriteBack,
                Stage::WriteBack => if autoclose {
                    Stage::Schedule
                } else {
                    Stage::MarkDone
                },
                Stage::Schedule => Stage::MarkDone,
                Stage::MarkDone => Stage::Cleanup,
                _ => Stage::Over,
            }
        },
    }
}

impl Stage {
    /// The first step of the work on an event. `readable` says whether its
    /// payload could be read, `planned` whether it calls for work.
    pub fn first(readable: bool, planned: bool) -> (r: Stage)
        ensures
            r == first_stage(readable, planned),
    {
        if !readable {
            Stage::MarkFailed
        } else if planned {
            Stage::Checkout
        } else {
            Stage::MarkIgnored
        }
    }

    /// The step after this one.
    pub fn next(self, autoclose: bool, success: bool) -> (r: Stage)
        ensures
            r == stage_after(self, autoclose, success),
    {
        match self {
            Stage::Cleanup => return Stage::Over,
            Stage::MarkFailed => return Stage::Over,
            Stage::Over => return Stage::Over,
            _ => {},
        }
        if !success {
            return Stage::MarkFailed;
        }
        match self {
            Stage::Checkout => Stage::Engine,
            Stage::Engine => Stage::Record,
            Stage::Record => Stage::WriteBack,
            Stage::WriteBack => if autoclose {
                Stage::Schedule
            } else {
                Stage::MarkDone
            },
            Stage::Schedule => Stage::MarkDone,
            Stage::MarkDone => Stage::Cleanup,
            _ => Stage::Over,
        }
    }
}

/// An event is marked as done only after its outcome was written back, and a
/// question only after its closing was scheduled; the engine runs only in a
/// checkout; a cleanup that fails does not fail the event.
pub proof fn law_steps_are_in_order(stage: Stage, autoclose: bool, success: bool)
    ensures
        stage_after(stage, autoclose, success) == Stage::Engine ==> stage == Stage::Checkout
            && success,
        stage_after(stage, autoclose, success) == Stage::WriteBack ==> stage == Stage::Record
            && success,
        stage_after(stage, autoclose, success) == Stage::MarkDone ==> success && (stage
            == Stage::Schedule || (stage == Stage::WriteBack && !autoclose)),
        stage_after(stage, autoclose, success) == Stage::Cleanup ==> stage == Stage::MarkDone
            && success,
        stage_after(stage, autoclose, success) != Stage::MarkIgnored,
        stage == Stage::Cleanup ==> stage_after(stage, autoclose, success) == Stage::Over,
        !success && stage != Stage::Cleanup && stage != Stage::MarkFailed && stage != Stage::Over
            ==> stage_after(stage, autoclose, success) == Stage::MarkFailed,
{
}

/// The number of steps that are left at most.
pub open spec fn steps_left(stage: Stage) -> nat {
    match stage {
        Stage::Checkout => 8,
        Stage::Engine => 7,
        Stage::Record => 6,
        Stage::WriteBack => 5,
        Stage::Schedule => 4,
        Stage::MarkDone => 3,
        Stage::MarkIgnored => 3,
        Stage::Cleanup => 1,
        Stage::MarkFailed => 1,
        Stage::Over => 0,
    }
}

/// The work on an event comes to an end, whatever goes wrong.
pub proof fn law_work_ends(stage: Stage, autoclose: bool, success: bool)
    requires
        stage != Stage::Over,
    ensures
        steps_left(stage_after(stage, autoclose, success)) < steps_left(stage),
{
}

/// An event is worked on exactly where there is room, its issue is not worked on
/// and it waits; where there is no room, nothing more is looked at.
pub proof fn law_events_that_are_taken(keys: Seq<Key>, limit: nat, key: Key, pending: bool)
    ensures
        start_of(keys, limit, key, pending) == Start::Work <==> keys.len() != limit
            && !keys.contains(key) && pending,
        start_of(keys, limit, key, pending) == Start::Stop <==> keys.len() == limit,
{
}

/// A round goes through the events in order: it takes each one that can be worked
/// on, holds its issue and marks it as running, passes over the others, and ends
/// where there is no more room.
pub proof fn law_rounds(
    keys: Seq<Key>,
    limit: nat,
    store: db::StoreModel,
    row: db::EventModel,
    rows: Seq<db::EventModel>,
    now: int,
)
    ensures
        ({
            let key = (row.owner, row.repo, row.number);
            let whole = round(keys, limit, store, seq![row] + rows, now);
            let rest = round(keys, limit, store, rows, now);
            let next = round(
                keys.push(key),
                limit,
                store.claimed(row.delivery_id, now),
                rows,
                now,
            );
            let waits = store.is_pending(row.delivery_id);
            &&& round(keys, limit, store, Seq::empty(), now) == (
                keys,
                store,
                Seq::<db::EventModel>::empty(),
            )
            &&& keys.len() == limit ==> whole == (keys, store, Seq::<db::EventModel>::empty())
            &&& keys.len() != limit && (keys.contains(key) || !waits) ==> whole == rest
            &&& keys.len() != limit && !keys.contains(key) && waits ==> whole == (
                next.0,
                next.1,
                seq![row] + next.2,
            )
        }),
{
    let all = seq![row] + rows;
    assert(all[0] == row);
    assert(all.drop_first() =~= rows);
}

/// A round looks at the events that wait, the oldest first, and at no more than
/// fifty of them.
pub proof fn law_events_of_a_round(store: db::StoreModel, e: db::EventModel)
    requires
        store.valid(),
    ensures
        ({
            let rows = round_rows(store);
            let waiting = db::answers(store.events, db::Query::Pending);
            &&& rows.len() <= 50
            &&& rows.contains(e) ==> store.events.contains(e) && e.status == db::EventStatus::Pending
            &&& store.events.contains(e) && e.status == db::EventStatus::Pending && waiting.len() <= 50
                ==> rows.contains(e)
            &&& forall|i: int, j: int|
                0 <= i < j < rows.len() ==> (#[trigger] rows[i]).created_at <= (
                #[trigger] rows[j]).created_at
            &&& ROUND_PAUSE_MILLIS == 1000
            &&& RUN_SECONDS == 3600
        }),
{
    let rows = round_rows(store);
    let waiting = db::answers(store.events, db::Query::Pending);
    db::law_pending_events_are_those_that_wait(store.events, e);
    db::law_limits(waiting, 50);
    if rows.contains(e) {
        let k = choose|k: int| 0 <= k < rows.len() && rows[k] == e;
        assert(waiting[k] == e);
    }
    let kept = store.events.filter(|x: db::EventModel| db::Query::Pending.matches(x));
    db::law_oldest_first(kept);
    assert forall|i: int, j: int| 0 <= i < j < rows.len() implies (#[trigger] rows[i]).created_at
        <= (#[trigger] rows[j]).created_at by {
        assert(rows[i] == waiting[i] && rows[j] == waiting[j]);
        assert(waiting[i].created_at <= waiting[j].created_at);
    }
}

/// Releasing an issue gives its place back and leaves every other issue alone.
pub proof fn law_release_is_of_one_issue(before: Seq<Key>, key: Key, after: Seq<Key>, other: Key)
    requires
        is_released(before, key, after),
    ensures
        !after.contains(key),
        other != key ==> (after.contains(other) <==> before.contains(other)),
        before.contains(key) ==> after.len() == before.len() - 1,
        !before.contains(key) ==> after == before,
{
}

/// What an event is worked on with: the repository of the event on GitHub, the
/// default branch that the delivery names, the preferred model, and a session of
/// its issue. A comment or a review goes on with the earlier session where there
/// is one; no other event does.
pub proof fn law_plans(
    row: db::EventModel,
    payload: json::Tree,
    lowered: Seq<char>,
    prior: Option<Seq<char>>,
    settings: config::SettingsModel,
)
    ensures
        ({
            let r = plan_for(row, payload, lowered, prior, settings);
            let plan = r->0;
            let follows = row.event_type == "issue_comment"@ || row.event_type
                == "pull_request_review"@;
            let named = payload.text_at2("repository"@, "default_branch"@);
            let models = text::list_entries(settings.model);
            &&& r is Some <==> dispatch::task_for(row.event_type, payload, lowered) is Some
            &&& r is Some ==> {
                &&& plan.task == dispatch::task_for(row.event_type, payload, lowered)->0
                &&& plan.owner == row.owner
                &&& plan.repo == row.repo
                &&& plan.number == row.number
                &&& plan.repo_url == "https://github.com/"@ + row.owner + "/"@ + row.repo + ".git"@
                &&& named is Some && named->0.len() > 0 ==> plan.default_branch == named->0
                &&& named is None || named->0.len() == 0 ==> plan.default_branch == "main"@
                &&& models.len() > 0 ==> plan.model == models[0]
                &&& models.len() == 0 ==> plan.model.len() == 0
                &&& plan.resume <==> follows && prior is Some
                &&& follows && prior is Some ==> plan.session_dir == prior->0
                &&& !follows || prior is None ==> plan.session_dir == text::joined(
                    settings.session_dir,
                    row.owner + "__"@ + row.repo + "__"@ + crate::decimal::decimal(row.number),
                )
            }
        }),
{
}

/// The record of an outcome holds its kind, its status and its texts, in this
/// order.
pub proof fn law_records_of_outcomes(outcome: adapters::OutcomeModel, kind: TaskKind)
    ensures
        outcome_record(outcome, kind) == json::Tree::Object(
            seq![
                ("kind"@, json::Tree::Text(kind.name())),
                (
                    "status"@,
                    json::Tree::Text(
                        if outcome.status == adapters::OutcomeStatus::Success {
                            "ok"@
                        } else {
                            "error"@
                        },
                    ),
                ),
                ("summary"@, json::Tree::Text(outcome.summary)),
                ("pr_body"@, json::Tree::Text(outcome.pr_body)),
                ("comment"@, json::Tree::Text(outcome.comment)),
                ("branch"@, json::Tree::Text(outcome.branch)),
            ],
        ),
{
}

/// Work that goes well is done step by step: checkout, engine, record, write-back,
/// for a question the schedule of its closing, the mark, the cleanup. An event
/// that calls for no work is marked at once, and one that cannot be read has
/// failed.
pub proof fn law_good_work(autoclose: bool)
    ensures
        first_stage(true, true) == Stage::Checkout,
        first_stage(true, false) == Stage::MarkIgnored,
        first_stage(false, true) == Stage::MarkFailed,
        first_stage(false, false) == Stage::MarkFailed,
        stage_after(Stage::Checkout, autoclose, true) == Stage::Engine,
        stage_after(Stage::Engine, autoclose, true) == Stage::Record,
        stage_after(Stage::Record, autoclose, true) == Stage::WriteBack,
        stage_after(Stage::WriteBack, true, true) == Stage::Schedule,
        stage_after(Stage::WriteBack, false, true) == Stage::MarkDone,
        stage_after(Stage::Schedule, autoclose, true) == Stage::MarkDone,
        stage_after(Stage::MarkDone, autoclose, true) == Stage::Cleanup,
        stage_after(Stage::MarkIgnored, autoclose, true) == Stage::Over,
        stage_after(Stage::MarkFailed, autoclose, true) == Stage::Over,
        stage_after(Stage::MarkFailed, autoclose, false) == Stage::Over,
        stage_after(Stage::Cleanup, autoclose, true) == Stage::Over,
{
}

} // verus!
