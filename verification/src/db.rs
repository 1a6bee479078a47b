//! The queue of events, the record of calls and the schedule of closings.

use vstd::prelude::*;
use vstd::string::*;

use crate::foreign;
use crate::host_tools::AuditEntry;
use crate::text;

verus! {

/// Where an event stands.
#[derive(Debug, Clone, Copy, PartialEq, Eq, Structural)]
pub enum EventStatus {
    Pending,
    Running,
    Done,
    Error,
}

impl EventStatus {
    pub open spec fn name(self) -> Seq<char> {
        match self {
            EventStatus::Pending => "pending"@,
            EventStatus::Running => "running"@,
            EventStatus::Done => "done"@,
            EventStatus::Error => "error"@,
        }
    }

    /// The status as it is stored.
    pub fn as_str(&self) -> (r: &'static str)
        ensures
            r@ == self.name(),
    {
        match self {
            EventStatus::Pending => "pending",
            EventStatus::Running => "running",
            EventStatus::Done => "done",
            EventStatus::Error => "error",
        }
    }

    /// Reads a status as it is stored.
    pub fn from_str(s: &str) -> (r: Result<EventStatus, String>)
        ensures
            r matches Ok(status) ==> s@ == status.name(),
            r matches Err(e) ==> e@ == "unknown event status: "@ + s@,
            r is Err <==> forall|status: EventStatus| s@ != #[trigger] status.name(),
    {
        if text::same_text(s, "pending") {
            assert(s@ == EventStatus::Pending.name());
            Ok(EventStatus::Pending)
        } else if text::same_text(s, "running") {
            assert(s@ == EventStatus::Running.name());
            Ok(EventStatus::Running)
        } else if text::same_text(s, "done") {
            assert(s@ == EventStatus::Done.name());
            Ok(EventStatus::Done)
        } else if text::same_text(s, "error") {
            assert(s@ == EventStatus::Error.name());
            Ok(EventStatus::Error)
        } else {
            Err("unknown event status: ".to_owned().concat(s))
        }
    }
}

/// The names of the states are all different, so that a status reads back as
/// it was stored.
pub proof fn law_status_reads_back(a: EventStatus, b: EventStatus)
    requires
        a.name() == b.name(),
    ensures
        a == b,
{
    reveal_strlit("pending");
    reveal_strlit("running");
    reveal_strlit("done");
    reveal_strlit("error");
    assert("pending"@[0] == 'p' && "running"@[0] == 'r' && "done"@[0] == 'd' && "error"@[0] == 'e');
}

/// An event; the times are in microseconds since the Unix epoch.
#[derive(Debug, Clone)]
pub struct Event {
    pub delivery_id: String,
    pub event_type: String,
    pub owner: String,
    pub repo: String,
    pub number: i64,
    pub payload: String,
    pub status: EventStatus,
    pub session_dir: Option<String>,
    pub created_at: u64,
    pub updated_at: u64,
}

/// What an event stands for.
pub struct EventModel {
    pub delivery_id: Seq<char>,
    pub event_type: Seq<char>,
    pub owner: Seq<char>,
    pub repo: Seq<char>,
    pub number: int,
    pub payload: Seq<char>,
    pub status: EventStatus,
    pub session_dir: Option<Seq<char>>,
    pub created_at: int,
    pub updated_at: int,
}

impl View for Event {
    type V = EventModel;

    open spec fn view(&self) -> EventModel {
        EventModel {
            delivery_id: self.delivery_id@,
            event_type: self.event_type@,
            owner: self.owner@,
            repo: self.repo@,
            number: self.number as int,
            payload: self.payload@,
            status: self.status,
            session_dir: foreign::opt_view(self.session_dir),
            created_at: self.created_at as int,
            updated_at: self.updated_at as int,
        }
    }
}

fn copy_opt(s: &Option<String>) -> (r: Option<String>)
    ensures
        foreign::opt_view(r) == foreign::opt_view(*s),
{
    match s {
        Some(s) => Some(s.clone()),
        None => None,
    }
}

impl Event {
    /// An event equal to this one.
    pub fn copy(&self) -> (r: Event)
        ensures
            r@ == self@,
    {
        Event {
            delivery_id: self.delivery_id.clone(),
            event_type: self.event_type.clone(),
            owner: self.owner.clone(),
            repo: self.repo.clone(),
            number: self.number,
            payload: self.payload.clone(),
            status: self.status,
            session_dir: copy_opt(&self.session_dir),
            created_at: self.created_at,
            updated_at: self.updated_at,
        }
    }
}

/// A call to the proxy, as it is written down.
#[derive(Debug, Clone)]
pub struct ToolCall {
    pub id: u64,
    pub owner: String,
    pub repo: String,
    pub number: i64,
    pub tool: String,
    pub args: String,
    pub result: String,
    pub created_at: u64,
}

/// What the record of a call stands for.
pub struct ToolCallModel {
    pub id: int,
    pub owner: Seq<char>,
    pub repo: Seq<char>,
    pub number: int,
    pub tool: Seq<char>,
    pub args: Seq<char>,
    pub result: Seq<char>,
    pub created_at: int,
}

impl View for ToolCall {
    type V = ToolCallModel;

    open spec fn view(&self) -> ToolCallModel {
        ToolCallModel {
            id: self.id as int,
            owner: self.owner@,
            repo: self.repo@,
            number: self.number as int,
            tool: self.tool@,
            args: self.args@,
            result: self.result@,
            created_at: self.created_at as int,
        }
    }
}

/// The closing of a question that is scheduled or done; the times are in
/// microseconds since the Unix epoch.
#[derive(Debug, Clone)]
pub struct AutoClose {
    pub owner: String,
    pub repo: String,
    pub number: i64,
    pub author_login: String,
    pub close_at: u64,
    pub closed_at: Option<u64>,
}

/// What a closing stands for.
pub struct AutoCloseModel {
    pub owner: Seq<char>,
    pub repo: Seq<char>,
    pub number: int,
    pub author_login: Seq<char>,
    pub close_at: int,
    pub closed_at: Option<int>,
}

pub open spec fn opt_time(t: Option<u64>) -> Option<int> {
    match t {
        Some(t) => Some(t as int),
        None => None,
    }
}

impl View for AutoClose {
    type V = AutoCloseModel;

    open spec fn view(&self) -> AutoCloseModel {
        AutoCloseModel {
            owner: self.owner@,
            repo: self.repo@,
            number: self.number as int,
            author_login: self.author_login@,
            close_at: self.close_at as int,
            closed_at: opt_time(self.closed_at),
        }
    }
}

impl AutoClose {
    /// A closing equal to this one.
    pub fn copy(&self) -> (r: AutoClose)
        ensures
            r@ == self@,
    {
        AutoClose {
            owner: self.owner.clone(),
            repo: self.repo.clone(),
            number: self.number,
            author_login: self.author_login.clone(),
            close_at: self.close_at,
            closed_at: self.closed_at,
        }
    }
}

// ---------------------------------------------------------------------------
// Order
// ---------------------------------------------------------------------------

/// `i` put into a list of indices that is in the order of its keys, behind
/// those with the same key.
pub open spec fn placed(sorted: Seq<int>, keys: Seq<int>, i: int) -> Seq<int>
    decreases sorted.len(),
{
    if sorted.len() == 0 || keys[sorted.last()] <= keys[i] {
        sorted.push(i)
    } else {
        placed(sorted.drop_last(), keys, i).push(sorted.last())
    }
}

/// The first `n` indices in the order of their keys, equal keys in the order
/// of the indices.
pub open spec fn order_of(keys: Seq<int>, n: int) -> Seq<int>
    decreases n,
{
    if n <= 0 {
        Seq::empty()
    } else {
        placed(order_of(keys, n - 1), keys, n - 1)
    }
}

pub open spec fn ints(v: Seq<u64>) -> Seq<int> {
    v.map_values(|k: u64| k as int)
}

pub open spec fn indices(v: Seq<usize>) -> Seq<int> {
    v.map_values(|i: usize| i as int)
}

proof fn lemma_placed_at(sorted: Seq<int>, keys: Seq<int>, i: int, p: int)
    requires
        0 <= p <= sorted.len(),
        forall|j: int| p <= j < sorted.len() ==> keys[#[trigger] sorted[j]] > keys[i],
        p > 0 ==> keys[sorted[p - 1]] <= keys[i],
    ensures
        placed(sorted, keys, i) == sorted.insert(p, i),
    decreases sorted.len(),
{
    if p == sorted.len() {
        assert(sorted.insert(p, i) =~= sorted.push(i));
    } else {
        assert(keys[sorted[sorted.len() - 1]] > keys[i]);
        lemma_placed_at(sorted.drop_last(), keys, i, p);
        assert(sorted.insert(p, i) =~= sorted.drop_last().insert(p, i).push(sorted.last()));
    }
}

/// The indices of a list of keys in the order of the keys.
fn sort_indices(keys: &Vec<u64>) -> (r: Vec<usize>)
    ensures
        indices(r@) == order_of(ints(keys@), keys@.len() as int),
{
    let ghost all = ints(keys@);
    let mut sorted: Vec<usize> = Vec::new();
    let mut i: usize = 0;
    assert(indices(sorted@) =~= Seq::<int>::empty());
    while i < keys.len()
        invariant
            i <= keys.len(),
            all == ints(keys@),
            sorted@.len() == i,
            indices(sorted@) == order_of(all, i as int),
            forall|j: int| 0 <= j < sorted@.len() ==> #[trigger] sorted@[j] < keys@.len(),
        decreases keys.len() - i,
    {
        let key: u64 = keys[i];
        let mut p: usize = sorted.len();
        while p > 0 && keys[sorted[p - 1]] > key
            invariant
                p <= sorted@.len(),
                all == ints(keys@),
                i < keys@.len(),
                key == keys@[i as int],
                forall|j: int| 0 <= j < sorted@.len() ==> #[trigger] sorted@[j] < keys@.len(),
                forall|j: int|
                    p <= j < sorted@.len() ==> keys@[(#[trigger] sorted@[j]) as int] > key,
            decreases p,
        {
            p -= 1;
        }
        let ghost before = sorted@;
        proof {
            assert forall|j: int| p <= j < indices(before).len() implies all[#[trigger] indices(
                before,
            )[j]] > all[i as int] by {
                assert(indices(before)[j] == before[j]);
                assert(all[before[j] as int] == keys@[before[j] as int]);
            }
            lemma_placed_at(indices(before), all, i as int, p as int);
        }
        sorted.insert(p, i);
        assert(indices(sorted@) =~= indices(before).insert(p as int, i as int));
        i += 1;
    }
    sorted
}

/// The members of a list at some indices.
pub open spec fn picked<A>(s: Seq<A>, idx: Seq<int>) -> Seq<A> {
    idx.map_values(|i: int| s[i])
}

proof fn lemma_picked_multiset<A>(s: Seq<A>, a: Seq<int>, b: Seq<int>)
    requires
        a.to_multiset() == b.to_multiset(),
    ensures
        picked(s, a).to_multiset() == picked(s, b).to_multiset(),
    decreases a.len(),
{
    broadcast use vstd::seq_lib::group_to_multiset_ensures;

    assert(a.len() == b.len()) by {
        a.to_multiset_ensures();
        b.to_multiset_ensures();
    }
    if a.len() > 0 {
        let x = a.last();
        assert(a.contains(x));
        assert(b.to_multiset().count(x) > 0);
        assert(b.contains(x));
        let k = choose|k: int| 0 <= k < b.len() && b[k] == x;
        let c = b.remove(k);
        let d = a.drop_last();
        assert(d.push(x) =~= a);
        assert(d.to_multiset() =~= a.to_multiset().remove(x));
        assert(c.to_multiset() =~= b.to_multiset().remove(x));
        lemma_picked_multiset(s, d, c);
        assert(picked(s, a) =~= picked(s, d).push(s[x]));
        assert(picked(s, b).remove(k) =~= picked(s, c));
        assert(picked(s, b)[k] == s[x]);
        assert(picked(s, c).to_multiset() =~= picked(s, b).to_multiset().remove(s[x]));
        assert(picked(s, b).contains(s[x]));
        assert(picked(s, a).to_multiset() =~= picked(s, b).to_multiset());
    } else {
        assert(picked(s, a) =~= picked(s, b));
    }
}

proof fn lemma_picked_all<A>(s: Seq<A>, order: Seq<int>)
    requires
        order.to_multiset() == Seq::new(s.len(), |i: int| i).to_multiset(),
    ensures
        picked(s, order).to_multiset() == s.to_multiset(),
{
    let id = Seq::new(s.len(), |i: int| i);
    lemma_picked_multiset(s, order, id);
    assert(picked(s, id) =~= s);
}

proof fn lemma_placed_members(sorted: Seq<int>, keys: Seq<int>, i: int)
    ensures
        placed(sorted, keys, i).len() == sorted.len() + 1,
        placed(sorted, keys, i).to_multiset() == sorted.to_multiset().insert(i),
        forall|x: int| #[trigger] placed(sorted, keys, i).contains(x) ==> x == i || sorted.contains(x),
    decreases sorted.len(),
{
    broadcast use vstd::seq_lib::group_to_multiset_ensures;

    if sorted.len() == 0 || keys[sorted.last()] <= keys[i] {
        assert forall|x: int| sorted.push(i).contains(x) implies x == i || sorted.contains(x) by {
            let k = choose|k: int| 0 <= k < sorted.push(i).len() && sorted.push(i)[k] == x;
            if k < sorted.len() {
                assert(sorted[k] == x);
            }
        }
    } else {
        let rest = sorted.drop_last();
        let q = placed(rest, keys, i);
        let r = q.push(sorted.last());
        lemma_placed_members(rest, keys, i);
        assert(sorted =~= rest.push(sorted.last()));
        assert(r.to_multiset() =~= sorted.to_multiset().insert(i));
        assert forall|x: int| r.contains(x) implies x == i || sorted.contains(x) by {
            let k = choose|k: int| 0 <= k < r.len() && r[k] == x;
            if k < q.len() {
                assert(q.contains(x));
                if x != i {
                    let m = choose|m: int| 0 <= m < rest.len() && rest[m] == x;
                    assert(sorted[m] == x);
                }
            } else {
                assert(sorted[sorted.len() - 1] == x);
            }
        }
    }
}

/// Ordering loses no index and makes none up.
pub proof fn law_order_keeps_all(keys: Seq<int>, n: int)
    requires
        0 <= n <= keys.len(),
    ensures
        order_of(keys, n).len() == n,
        order_of(keys, n).to_multiset() == Seq::new(n as nat, |i: int| i).to_multiset(),
        forall|x: int| #[trigger] order_of(keys, n).contains(x) ==> 0 <= x < n,
    decreases n,
{
    broadcast use vstd::seq_lib::group_to_multiset_ensures;

    if n > 0 {
        law_order_keeps_all(keys, n - 1);
        lemma_placed_members(order_of(keys, n - 1), keys, n - 1);
        let before = Seq::new((n - 1) as nat, |i: int| i);
        assert(Seq::new(n as nat, |i: int| i) =~= before.push(n - 1));
    } else {
        assert(order_of(keys, n) =~= Seq::new(n as nat, |i: int| i));
    }
}

/// `a` may stand before `b`: its key is smaller, or it is the same and `a`
/// came first.
pub open spec fn in_order(keys: Seq<int>, a: int, b: int) -> bool {
    keys[a] < keys[b] || (keys[a] == keys[b] && a < b)
}

pub open spec fn all_in_order(s: Seq<int>, keys: Seq<int>) -> bool {
    forall|a: int, b: int| 0 <= a < b < s.len() ==> in_order(keys, #[trigger] s[a], #[trigger] s[b])
}

proof fn lemma_placed_in_order(sorted: Seq<int>, keys: Seq<int>, i: int)
    requires
        all_in_order(sorted, keys),
        forall|x: int| #[trigger] sorted.contains(x) ==> x < i,
    ensures
        all_in_order(placed(sorted, keys, i), keys),
    decreases sorted.len(),
{
    let r = placed(sorted, keys, i);
    if sorted.len() == 0 || keys[sorted.last()] <= keys[i] {
        assert forall|a: int, b: int| 0 <= a < b < r.len() implies in_order(
            keys,
            #[trigger] r[a],
            #[trigger] r[b],
        ) by {
            if b == sorted.len() {
                assert(sorted.contains(sorted[a]));
                if a < sorted.len() - 1 {
                    assert(in_order(keys, sorted[a], sorted[sorted.len() - 1]));
                }
            }
        }
    } else {
        let rest = sorted.drop_last();
        let q = placed(rest, keys, i);
        assert forall|x: int| #[trigger] rest.contains(x) implies x < i by {
            let k = choose|k: int| 0 <= k < rest.len() && rest[k] == x;
            assert(sorted[k] == x);
            assert(sorted.contains(x));
        }
        lemma_placed_in_order(rest, keys, i);
        lemma_placed_members(rest, keys, i);
        assert forall|a: int, b: int| 0 <= a < b < r.len() implies in_order(
            keys,
            #[trigger] r[a],
            #[trigger] r[b],
        ) by {
            if b == q.len() {
                assert(q.contains(q[a]));
                if q[a] != i {
                    let k = choose|k: int| 0 <= k < rest.len() && rest[k] == q[a];
                    assert(in_order(keys, sorted[k], sorted[sorted.len() - 1]));
                }
            } else {
                assert(r[a] == q[a] && r[b] == q[b]);
            }
        }
    }
}

/// Ordering puts smaller keys first, and of equal ones the one that came
/// first.
pub proof fn law_order_is_by_key(keys: Seq<int>, n: int)
    requires
        0 <= n <= keys.len(),
    ensures
        all_in_order(order_of(keys, n), keys),
    decreases n,
{
    if n > 0 {
        law_order_is_by_key(keys, n - 1);
        law_order_keeps_all(keys, n - 1);
        lemma_placed_in_order(order_of(keys, n - 1), keys, n - 1);
    }
}

// ---------------------------------------------------------------------------
// The store
// ---------------------------------------------------------------------------

pub open spec fn events_view(v: Seq<Event>) -> Seq<EventModel> {
    v.map_values(|e: Event| e@)
}

pub open spec fn calls_view(v: Seq<ToolCall>) -> Seq<ToolCallModel> {
    v.map_values(|c: ToolCall| c@)
}

pub open spec fn closings_view(v: Seq<AutoClose>) -> Seq<AutoCloseModel> {
    v.map_values(|a: AutoClose| a@)
}

/// What a store holds.
#[verifier::ext_equal]
pub struct StoreModel {
    pub events: Seq<EventModel>,
    pub calls: Seq<ToolCallModel>,
    pub closings: Seq<AutoCloseModel>,
}

/// The queue of events, the record of calls and the schedule of closings, each
/// in the order in which it was made.
#[derive(Debug)]
pub struct Store {
    events: Vec<Event>,
    calls: Vec<ToolCall>,
    closings: Vec<AutoClose>,
}

impl View for Store {
    type V = StoreModel;

    closed spec fn view(&self) -> StoreModel {
        StoreModel {
            events: events_view(self.events@),
            calls: calls_view(self.calls@),
            closings: closings_view(self.closings@),
        }
    }
}

/// The event is about the issue.
pub open spec fn is_event_of(e: EventModel, owner: Seq<char>, repo: Seq<char>, number: int) -> bool {
    e.owner == owner && e.repo == repo && e.number == number
}

/// The closing is that of the issue.
pub open spec fn is_closing_of(
    a: AutoCloseModel,
    owner: Seq<char>,
    repo: Seq<char>,
    number: int,
) -> bool {
    a.owner == owner && a.repo == repo && a.number == number
}

/// The position of the event with the given id, or the number of events.
pub open spec fn event_index(events: Seq<EventModel>, id: Seq<char>) -> int
    decreases events.len(),
{
    if events.len() == 0 || events[0].delivery_id == id {
        0
    } else {
        1 + event_index(events.drop_first(), id)
    }
}

/// The event with the given id is stored.
pub open spec fn has_event(events: Seq<EventModel>, id: Seq<char>) -> bool {
    event_index(events, id) < events.len()
}

/// The position of the closing of the issue, or the number of closings.
pub open spec fn closing_index(
    closings: Seq<AutoCloseModel>,
    owner: Seq<char>,
    repo: Seq<char>,
    number: int,
) -> int
    decreases closings.len(),
{
    if closings.len() == 0 || is_closing_of(closings[0], owner, repo, number) {
        0
    } else {
        1 + closing_index(closings.drop_first(), owner, repo, number)
    }
}

/// The event at the position that an id has is the first with this id.
pub proof fn lemma_event_index(events: Seq<EventModel>, id: Seq<char>)
    ensures
        0 <= event_index(events, id) <= events.len(),
        has_event(events, id) ==> events[event_index(events, id)].delivery_id == id,
        forall|i: int|
            0 <= i < event_index(events, id) ==> (#[trigger] events[i]).delivery_id != id,
    decreases events.len(),
{
    if events.len() > 0 && events[0].delivery_id != id {
        let rest = events.drop_first();
        lemma_event_index(rest, id);
        assert forall|i: int| 0 <= i < event_index(events, id) implies (
        #[trigger] events[i]).delivery_id != id by {
            if i > 0 {
                assert(events[i] == rest[i - 1]);
            }
        }
    }
}

/// The closing at the position of an issue is the first one of this issue.
pub proof fn lemma_closing_index(
    closings: Seq<AutoCloseModel>,
    owner: Seq<char>,
    repo: Seq<char>,
    number: int,
)
    ensures
        0 <= closing_index(closings, owner, repo, number) <= closings.len(),
        closing_index(closings, owner, repo, number) < closings.len() ==> is_closing_of(
            closings[closing_index(closings, owner, repo, number)],
            owner,
            repo,
            number,
        ),
        forall|i: int|
            0 <= i < closing_index(closings, owner, repo, number) ==> !is_closing_of(
                #[trigger] closings[i],
                owner,
                repo,
                number,
            ),
    decreases closings.len(),
{
    if closings.len() > 0 && !is_closing_of(closings[0], owner, repo, number) {
        let rest = closings.drop_first();
        lemma_closing_index(rest, owner, repo, number);
        assert forall|i: int|
            0 <= i < closing_index(closings, owner, repo, number) implies !is_closing_of(
            #[trigger] closings[i],
            owner,
            repo,
            number,
        ) by {
            if i > 0 {
                assert(closings[i] == rest[i - 1]);
            }
        }
    }
}

impl StoreModel {
    /// No id is stored twice, no issue has two closings, and calls are
    /// numbered from one.
    pub open spec fn valid(self) -> bool {
        &&& forall|i: int, j: int|
            0 <= i < j < self.events.len() ==> (#[trigger] self.events[i]).delivery_id != (
            #[trigger] self.events[j]).delivery_id
        &&& forall|i: int, j: int|
            0 <= i < j < self.closings.len() ==> !is_closing_of(
                #[trigger] self.closings[i],
                (#[trigger] self.closings[j]).owner,
                self.closings[j].repo,
                self.closings[j].number,
            )
        &&& forall|i: int| 0 <= i < self.calls.len() ==> (#[trigger] self.calls[i]).id == i + 1
    }

    /// The store with one more event, unless its id is there.
    pub open spec fn enqueued(self, e: EventModel) -> StoreModel {
        if has_event(self.events, e.delivery_id) {
            self
        } else {
            StoreModel { events: self.events.push(e), ..self }
        }
    }

    /// The event with the given id waits.
    pub open spec fn is_pending(self, id: Seq<char>) -> bool {
        has_event(self.events, id) && self.events[event_index(self.events, id)].status
            == EventStatus::Pending
    }

    /// The store with the event changed that has the given id, if there is one.
    pub open spec fn with_event(self, id: Seq<char>, e: EventModel) -> StoreModel {
        if has_event(self.events, id) {
            StoreModel { events: self.events.update(event_index(self.events, id), e), ..self }
        } else {
            self
        }
    }

    /// The event with the given id.
    pub open spec fn event(self, id: Seq<char>) -> EventModel {
        self.events[event_index(self.events, id)]
    }

    pub open spec fn claimed(self, id: Seq<char>, now: int) -> StoreModel {
        if self.is_pending(id) {
            self.with_event(
                id,
                EventModel { status: EventStatus::Running, updated_at: now, ..self.event(id) },
            )
        } else {
            self
        }
    }

    pub open spec fn finished(self, id: Seq<char>, session_dir: Option<Seq<char>>, now: int) -> StoreModel {
        self.with_event(
            id,
            EventModel {
                status: EventStatus::Done,
                session_dir,
                updated_at: now,
                ..self.event(id)
            },
        )
    }

    pub open spec fn failed(self, id: Seq<char>, now: int) -> StoreModel {
        self.with_event(
            id,
            EventModel { status: EventStatus::Error, updated_at: now, ..self.event(id) },
        )
    }

    /// The store with the closing of an issue scheduled anew.
    pub open spec fn scheduled(self, a: AutoCloseModel) -> StoreModel {
        let i = closing_index(self.closings, a.owner, a.repo, a.number);
        if i < self.closings.len() {
            StoreModel { closings: self.closings.update(i, a), ..self }
        } else {
            StoreModel { closings: self.closings.push(a), ..self }
        }
    }

    /// The store with the closing of an issue done.
    pub open spec fn completed(self, owner: Seq<char>, repo: Seq<char>, number: int, now: int) -> StoreModel {
        let i = closing_index(self.closings, owner, repo, number);
        if i < self.closings.len() {
            StoreModel {
                closings: self.closings.update(
                    i,
                    AutoCloseModel { closed_at: Some(now), ..self.closings[i] },
                ),
                ..self
            }
        } else {
            self
        }
    }
}

/// Events in the order in which they were made.
pub open spec fn oldest_first(events: Seq<EventModel>) -> Seq<EventModel> {
    picked(
        events,
        order_of(events.map_values(|e: EventModel| e.created_at), events.len() as int),
    )
}

/// The order of events by age holds the same events, and no event stands
/// before an older one.
pub proof fn law_oldest_first(events: Seq<EventModel>)
    ensures
        oldest_first(events).len() == events.len(),
        oldest_first(events).to_multiset() == events.to_multiset(),
        forall|i: int, j: int|
            0 <= i < j < events.len() ==> (#[trigger] oldest_first(events)[i]).created_at <= (
            #[trigger] oldest_first(events)[j]).created_at,
{
    let keys = events.map_values(|e: EventModel| e.created_at);
    let n = events.len() as int;
    let order = order_of(keys, n);
    law_order_keeps_all(keys, n);
    law_order_is_by_key(keys, n);
    lemma_picked_all(events, order);
    assert forall|i: int, j: int| 0 <= i < j < n implies (#[trigger] oldest_first(
        events,
    )[i]).created_at <= (#[trigger] oldest_first(events)[j]).created_at by {
        assert(in_order(keys, order[i], order[j]));
        assert(order.contains(order[i]) && order.contains(order[j]));
    }
}

/// The order of closings by their time holds the same closings, and none
/// stands before a sooner one.
pub proof fn law_soonest_first(closings: Seq<AutoCloseModel>)
    ensures
        soonest_first(closings).len() == closings.len(),
        soonest_first(closings).to_multiset() == closings.to_multiset(),
        forall|i: int, j: int|
            0 <= i < j < closings.len() ==> (#[trigger] soonest_first(closings)[i]).close_at <= (
            #[trigger] soonest_first(closings)[j]).close_at,
{
    let keys = closings.map_values(|a: AutoCloseModel| a.close_at);
    let n = closings.len() as int;
    let order = order_of(keys, n);
    law_order_keeps_all(keys, n);
    law_order_is_by_key(keys, n);
    lemma_picked_all(closings, order);
    assert forall|i: int, j: int| 0 <= i < j < n implies (#[trigger] soonest_first(
        closings,
    )[i]).close_at <= (#[trigger] soonest_first(closings)[j]).close_at by {
        assert(in_order(keys, order[i], order[j]));
        assert(order.contains(order[i]) && order.contains(order[j]));
    }
}

/// Closings in the order in which they are due.
pub open spec fn soonest_first(closings: Seq<AutoCloseModel>) -> Seq<AutoCloseModel> {
    picked(
        closings,
        order_of(closings.map_values(|a: AutoCloseModel| a.close_at), closings.len() as int),
    )
}

/// The first members of a list, no more than `limit`.
pub open spec fn at_most<A>(s: Seq<A>, limit: int) -> Seq<A> {
    if s.len() <= limit {
        s
    } else {
        s.take(limit)
    }
}

/// A question to the queue of events.
#[derive(Debug, Clone, Copy)]
pub enum Query<'a> {
    /// The events that wait.
    Pending,
    /// The events of an issue.
    Issue { owner: &'a str, repo: &'a str, number: i64 },
    /// The events of an issue that have a session, but for one.
    Prior { owner: &'a str, repo: &'a str, number: i64, delivery_id: &'a str },
}

impl<'a> Query<'a> {
    pub open spec fn matches(self, e: EventModel) -> bool {
        match self {
            Query::Pending => e.status == EventStatus::Pending,
            Query::Issue { owner, repo, number } => is_event_of(
                e,
                owner@,
                repo@,
                number as int,
            ),
            Query::Prior { owner, repo, number, delivery_id } => {
                &&& is_event_of(e, owner@, repo@, number as int)
                &&& e.session_dir is Some
                &&& e.delivery_id != delivery_id@
            },
        }
    }

    fn test(&self, e: &Event) -> (r: bool)
        ensures
            r == self.matches(e@),
    {
        match self {
            Query::Pending => match e.status {
                EventStatus::Pending => true,
                _ => false,
            },
            Query::Issue { owner, repo, number } => text::same_text(e.owner.as_str(), owner)
                && text::same_text(e.repo.as_str(), repo) && e.number == *number,
            Query::Prior { owner, repo, number, delivery_id } => text::same_text(
                e.owner.as_str(),
                owner,
            ) && text::same_text(e.repo.as_str(), repo) && e.number == *number
                && e.session_dir.is_some() && !text::same_text(
                e.delivery_id.as_str(),
                delivery_id,
            ),
        }
    }
}

/// The events that match a question, the oldest first.
pub open spec fn answers(events: Seq<EventModel>, query: Query<'_>) -> Seq<EventModel> {
    oldest_first(events.filter(|e: EventModel| query.matches(e)))
}

/// The closings that are due: their time has come and they are not done.
pub open spec fn due(closings: Seq<AutoCloseModel>, now: int) -> Seq<AutoCloseModel> {
    soonest_first(
        closings.filter(|a: AutoCloseModel| a.closed_at is None && a.close_at <= now),
    )
}

/// The number of events with a status.
pub open spec fn status_count(events: Seq<EventModel>, status: EventStatus) -> nat {
    events.filter(|e: EventModel| e.status == status).len()
}

/// The name and the number of events of a status, where there are any.
pub open spec fn count_row(events: Seq<EventModel>, status: EventStatus) -> Seq<(Seq<char>, int)> {
    if status_count(events, status) > 0 {
        seq![(status.name(), status_count(events, status) as int)]
    } else {
        Seq::empty()
    }
}

fn arrange_events(found: &Vec<Event>, limit: usize) -> (r: Vec<Event>)
    ensures
        events_view(r@) == at_most(oldest_first(events_view(found@)), limit as int),
{
    let ghost all = events_view(found@);
    let ghost keys_of = all.map_values(|e: EventModel| e.created_at);
    let mut keys: Vec<u64> = Vec::new();
    let mut i: usize = 0;
    while i < found.len()
        invariant
            i <= found.len(),
            keys@.len() == i,
            forall|k: int| 0 <= k < i ==> #[trigger] keys@[k] == found@[k].created_at,
        decreases found.len() - i,
    {
        keys.push(found[i].created_at);
        i += 1;
    }
    assert(ints(keys@) =~= keys_of);
    let sorted = sort_indices(&keys);
    let ghost order = order_of(keys_of, all.len() as int);
    proof {
        law_order_keeps_all(keys_of, all.len() as int);
    }
    let mut r: Vec<Event> = Vec::new();
    let mut j: usize = 0;
    while j < sorted.len() && j < limit
        invariant
            j <= sorted.len(),
            j <= limit,
            r@.len() == j,
            all == events_view(found@),
            indices(sorted@) == order,
            order.len() == all.len(),
            forall|x: int| #[trigger] order.contains(x) ==> 0 <= x < all.len(),
            forall|k: int| 0 <= k < j ==> (#[trigger] r@[k])@ == all[order[k]],
        decreases sorted.len() - j,
    {
        assert(order[j as int] == sorted@[j as int]);
        assert(order.contains(order[j as int]));
        r.push(found[sorted[j]].copy());
        j += 1;
    }
    assert(events_view(r@) =~= at_most(picked(all, order), limit as int));
    r
}

fn arrange_closings(found: &Vec<AutoClose>, limit: usize) -> (r: Vec<AutoClose>)
    ensures
        closings_view(r@) == at_most(soonest_first(closings_view(found@)), limit as int),
{
    let ghost all = closings_view(found@);
    let ghost keys_of = all.map_values(|a: AutoCloseModel| a.close_at);
    let mut keys: Vec<u64> = Vec::new();
    let mut i: usize = 0;
    while i < found.len()
        invariant
            i <= found.len(),
            keys@.len() == i,
            forall|k: int| 0 <= k < i ==> #[trigger] keys@[k] == found@[k].close_at,
        decreases found.len() - i,
    {
        keys.push(found[i].close_at);
        i += 1;
    }
    assert(ints(keys@) =~= keys_of);
    let sorted = sort_indices(&keys);
    let ghost order = order_of(keys_of, all.len() as int);
    proof {
        law_order_keeps_all(keys_of, all.len() as int);
    }
    let mut r: Vec<AutoClose> = Vec::new();
    let mut j: usize = 0;
    while j < sorted.len() && j < limit
        invariant
            j <= sorted.len(),
            j <= limit,
            r@.len() == j,
            all == closings_view(found@),
            indices(sorted@) == order,
            order.len() == all.len(),
            forall|x: int| #[trigger] order.contains(x) ==> 0 <= x < all.len(),
            forall|k: int| 0 <= k < j ==> (#[trigger] r@[k])@ == all[order[k]],
        decreases sorted.len() - j,
    {
        assert(order[j as int] == sorted@[j as int]);
        assert(order.contains(order[j as int]));
        r.push(found[sorted[j]].copy());
        j += 1;
    }
    assert(closings_view(r@) =~= at_most(picked(all, order), limit as int));
    r
}

impl Store {
    /// An empty store.
    pub fn new() -> (r: Store)
        ensures
            r@.valid(),
            r@.events.len() == 0,
            r@.calls.len() == 0,
            r@.closings.len() == 0,
    {
        Store { events: Vec::new(), calls: Vec::new(), closings: Vec::new() }
    }

    fn find_event(&self, id: &str) -> (r: usize)
        ensures
            r == event_index(self@.events, id@),
            r <= self.events@.len(),
    {
        let ghost all = self@.events;
        let mut i: usize = 0;
        assert(all.skip(0) == all);
        while i < self.events.len() && !text::same_text(self.events[i].delivery_id.as_str(), id)
            invariant
                i <= self.events@.len(),
                all == events_view(self.events@),
                event_index(all, id@) == i + event_index(all.skip(i as int), id@),
            decreases self.events.len() - i,
        {
            assert(all.skip(i as int)[0] == self.events@[i as int]@);
            assert(all.skip(i as int).drop_first() == all.skip(i + 1));
            i += 1;
        }
        assert(i < self.events@.len() ==> all.skip(i as int)[0] == self.events@[i as int]@);
        i
    }

    fn find_closing(&self, owner: &str, repo: &str, number: i64) -> (r: usize)
        ensures
            r == closing_index(self@.closings, owner@, repo@, number as int),
            r <= self.closings@.len(),
    {
        let ghost all = self@.closings;
        let mut i: usize = 0;
        assert(all.skip(0) == all);
        while i < self.closings.len()
            invariant
                i <= self.closings@.len(),
                all == closings_view(self.closings@),
                closing_index(all, owner@, repo@, number as int) == i + closing_index(
                    all.skip(i as int),
                    owner@,
                    repo@,
                    number as int,
                ),
            decreases self.closings.len() - i,
        {
            assert(all.skip(i as int)[0] == self.closings@[i as int]@);
            if text::same_text(self.closings[i].owner.as_str(), owner) && text::same_text(
                self.closings[i].repo.as_str(),
                repo,
            ) && self.closings[i].number == number {
                return i;
            }
            assert(all.skip(i as int).drop_first() == all.skip(i + 1));
            i += 1;
        }
        i
    }

    /// Puts an event back as it was stored, unless its id is there.
    pub fn restore_event(&mut self, event: Event) -> (r: bool)
        requires
            old(self)@.valid(),
        ensures
            final(self)@.valid(),
            r == !has_event(old(self)@.events, event@.delivery_id),
            final(self)@ == old(self)@.enqueued(event@),
    {
        let i: usize = self.find_event(event.delivery_id.as_str());
        if i < self.events.len() {
            return false;
        }
        let ghost before = self@;
        let ghost new = event@;
        self.events.push(event);
        proof {
            lemma_event_index(before.events, new.delivery_id);
            assert(self@.events =~= before.events.push(new));
            assert(self@ =~= before.enqueued(new));
        }
        true
    }

    /// Stores a new event that waits; whether it is new. An id that is there is
    /// stored only once.
    pub fn enqueue(
        &mut self,
        delivery_id: &str,
        event_type: &str,
        owner: &str,
        repo: &str,
        number: i64,
        payload: &str,
        now: u64,
    ) -> (r: bool)
        requires
            old(self)@.valid(),
        ensures
            final(self)@.valid(),
            r == !has_event(old(self)@.events, delivery_id@),
            final(self)@ == old(self)@.enqueued(
                (EventModel {
                    delivery_id: delivery_id@,
                    event_type: event_type@,
                    owner: owner@,
                    repo: repo@,
                    number: number as int,
                    payload: payload@,
                    status: EventStatus::Pending,
                    session_dir: None,
                    created_at: now as int,
                    updated_at: now as int,
                }),
            ),
    {
        self.restore_event(
            Event {
                delivery_id: delivery_id.to_owned(),
                event_type: event_type.to_owned(),
                owner: owner.to_owned(),
                repo: repo.to_owned(),
                number,
                payload: payload.to_owned(),
                status: EventStatus::Pending,
                session_dir: None,
                created_at: now,
                updated_at: now,
            },
        )
    }

    fn select(&self, query: Query<'_>) -> (r: Vec<Event>)
        ensures
            events_view(r@) == self@.events.filter(|e: EventModel| query.matches(e)),
    {
        let ghost all = self@.events;
        let ghost wanted = |e: EventModel| query.matches(e);
        let mut r: Vec<Event> = Vec::new();
        let mut i: usize = 0;
        proof {
            reveal(Seq::filter);
            assert(events_view(r@) =~= all.take(0).filter(wanted));
        }
        while i < self.events.len()
            invariant
                i <= self.events@.len(),
                all == events_view(self.events@),
                wanted == (|e: EventModel| query.matches(e)),
                events_view(r@) == all.take(i as int).filter(wanted),
            decreases self.events.len() - i,
        {
            proof {
                reveal(Seq::filter);
                assert(all.take(i + 1).drop_last() == all.take(i as int));
                assert(all.take(i + 1).last() == self.events@[i as int]@);
            }
            if query.test(&self.events[i]) {
                let ghost before = events_view(r@);
                let e = self.events[i].copy();
                r.push(e);
                assert(events_view(r@) =~= before.push(e@));
            }
            i += 1;
        }
        assert(all.take(all.len() as int) == all);
        r
    }

    /// The events that wait, the oldest first, no more than `limit`.
    pub fn get_pending(&self, limit: usize) -> (r: Vec<Event>)
        ensures
            events_view(r@) == at_most(answers(self@.events, Query::Pending), limit as int),
    {
        arrange_events(&self.select(Query::Pending), limit)
    }

    /// Takes an event that waits; whether it was still to be had.
    pub fn claim(&mut self, delivery_id: &str, now: u64) -> (r: bool)
        requires
            old(self)@.valid(),
        ensures
            final(self)@.valid(),
            r == old(self)@.is_pending(delivery_id@),
            final(self)@ == old(self)@.claimed(delivery_id@, now as int),
    {
        let i: usize = self.find_event(delivery_id);
        if i == self.events.len() {
            return false;
        }
        let mut e = self.events[i].copy();
        match e.status {
            EventStatus::Pending => {},
            _ => return false,
        }
        e.status = EventStatus::Running;
        e.updated_at = now;
        self.put_event(i, e);
        true
    }

    fn put_event(&mut self, i: usize, e: Event)
        requires
            old(self)@.valid(),
            i < old(self)@.events.len(),
            e@.delivery_id == old(self)@.events[i as int].delivery_id,
        ensures
            final(self)@.valid(),
            final(self)@ == (StoreModel {
                events: old(self)@.events.update(i as int, e@),
                ..old(self)@
            }),
    {
        let ghost before = self@;
        let ghost new = e@;
        self.events[i] = e;
        assert(self@.events =~= before.events.update(i as int, new));
        assert(self@ =~= StoreModel { events: before.events.update(i as int, new), ..before });
    }

    /// Marks an event as done, with the session that it was worked on in.
    pub fn done(&mut self, delivery_id: &str, session_dir: Option<&str>, now: u64)
        requires
            old(self)@.valid(),
        ensures
            final(self)@.valid(),
            final(self)@ == old(self)@.finished(
                delivery_id@,
                crate::json::text_of(session_dir),
                now as int,
            ),
    {
        let i: usize = self.find_event(delivery_id);
        if i < self.events.len() {
            let mut e = self.events[i].copy();
            e.status = EventStatus::Done;
            e.session_dir = match session_dir {
                Some(s) => Some(s.to_owned()),
                None => None,
            };
            e.updated_at = now;
            self.put_event(i, e);
        }
    }

    /// Marks an event as failed.
    pub fn fail(&mut self, delivery_id: &str, now: u64)
        requires
            old(self)@.valid(),
        ensures
            final(self)@.valid(),
            final(self)@ == old(self)@.failed(delivery_id@, now as int),
    {
        let i: usize = self.find_event(delivery_id);
        if i < self.events.len() {
            let mut e = self.events[i].copy();
            e.status = EventStatus::Error;
            e.updated_at = now;
            self.put_event(i, e);
        }
    }

    /// Writes a call down.
    pub fn audit_tool_call(&mut self, entry: AuditEntry, now: u64)
        requires
            old(self)@.valid(),
            old(self)@.calls.len() < u64::MAX,
        ensures
            final(self)@.valid(),
            final(self)@ == (StoreModel {
                calls: old(self)@.calls.push(
                    ToolCallModel {
                        id: old(self)@.calls.len() as int + 1,
                        owner: entry.owner@,
                        repo: entry.repo@,
                        number: entry.number as int,
                        tool: entry.tool@,
                        args: entry.args@,
                        result: entry.result@,
                        created_at: now as int,
                    },
                ),
                ..old(self)@
            }),
    {
        let ghost before = self@;
        let call = ToolCall {
            id: self.calls.len() as u64 + 1,
            owner: entry.owner,
            repo: entry.repo,
            number: entry.number,
            tool: entry.tool,
            args: entry.args,
            result: entry.result,
            created_at: now,
        };
        let ghost new = call@;
        self.calls.push(call);
        assert(self@.calls =~= before.calls.push(new));
        assert(self@ =~= StoreModel { calls: before.calls.push(new), ..before });
    }

    /// The calls that were written down.
    pub fn tool_calls(&self) -> (r: &Vec<ToolCall>)
        ensures
            calls_view(r@) == self@.calls,
    {
        &self.calls
    }

    /// The latest event of an issue.
    pub fn get_latest_event_for_issue(&self, owner: &str, repo: &str, number: i64) -> (r: Option<
        Event,
    >)
        ensures
            ({
                let found = answers(self@.events, Query::Issue { owner, repo, number });
                &&& r is Some <==> found.len() > 0
                &&& r matches Some(e) ==> e@ == found.last()
            }),
    {
        let selected = self.select(Query::Issue { owner, repo, number });
        proof {
            law_oldest_first(events_view(selected@));
        }
        let mut found = arrange_events(&selected, selected.len());
        let ghost all = events_view(found@);
        let last = found.pop();
        assert(last matches Some(e) ==> e@ == all.last());
        last
    }

    /// The session of the latest event of an issue that has one; the event with
    /// the given id does not count.
    pub fn prior_session_dir(&self, owner: &str, repo: &str, number: i64, delivery_id: &str) -> (r:
        Option<String>)
        ensures
            ({
                let found = answers(
                    self@.events,
                    Query::Prior { owner, repo, number, delivery_id },
                );
                foreign::opt_view(r) == if found.len() > 0 {
                    found.last().session_dir
                } else {
                    None
                }
            }),
    {
        let selected = self.select(Query::Prior { owner, repo, number, delivery_id });
        proof {
            law_oldest_first(events_view(selected@));
        }
        let mut found = arrange_events(&selected, selected.len());
        let ghost all = events_view(found@);
        match found.pop() {
            Some(e) => {
                assert(e@ == all.last());
                e.session_dir
            },
            None => None,
        }
    }

    fn count(&self, status: EventStatus) -> (r: usize)
        ensures
            r == status_count(self@.events, status),
            r <= self.events@.len(),
    {
        let ghost all = self@.events;
        let ghost wanted = |e: EventModel| e.status == status;
        let mut n: usize = 0;
        let mut i: usize = 0;
        proof {
            reveal(Seq::filter);
            assert(all.take(0).filter(wanted).len() == 0);
        }
        while i < self.events.len()
            invariant
                i <= self.events@.len(),
                n <= i,
                all == events_view(self.events@),
                wanted == (|e: EventModel| e.status == status),
                n == all.take(i as int).filter(wanted).len(),
            decreases self.events.len() - i,
        {
            proof {
                reveal(Seq::filter);
                assert(all.take(i + 1).drop_last() == all.take(i as int));
                assert(all.take(i + 1).last() == self.events@[i as int]@);
            }
            if self.events[i].status == status {
                n += 1;
            }
            i += 1;
        }
        assert(all.take(all.len() as int) == all);
        n
    }

    /// The number of events with each status that occurs, in the order of the
    /// names.
    pub fn status_counts(&self) -> (r: Vec<(String, u64)>)
        ensures
            r@.map_values(|c: (String, u64)| (c.0@, c.1 as int)) == count_row(
                self@.events,
                EventStatus::Done,
            ) + count_row(self@.events, EventStatus::Error) + count_row(
                self@.events,
                EventStatus::Pending,
            ) + count_row(self@.events, EventStatus::Running),
    {
        let mut r: Vec<(String, u64)> = Vec::new();
        let ghost view = |c: (String, u64)| (c.0@, c.1 as int);
        let ghost events = self@.events;
        assert(r@.map_values(view) =~= Seq::<(Seq<char>, int)>::empty());
        self.push_count(&mut r, EventStatus::Done);
        self.push_count(&mut r, EventStatus::Error);
        self.push_count(&mut r, EventStatus::Pending);
        self.push_count(&mut r, EventStatus::Running);
        assert(r@.map_values(view) =~= count_row(events, EventStatus::Done) + count_row(
            events,
            EventStatus::Error,
        ) + count_row(events, EventStatus::Pending) + count_row(events, EventStatus::Running));
        r
    }

    fn push_count(&self, rows: &mut Vec<(String, u64)>, status: EventStatus)
        ensures
            final(rows)@.map_values(|c: (String, u64)| (c.0@, c.1 as int)) == old(
                rows,
            )@.map_values(|c: (String, u64)| (c.0@, c.1 as int)) + count_row(self@.events, status),
    {
        let ghost view = |c: (String, u64)| (c.0@, c.1 as int);
        let ghost before = rows@.map_values(view);
        let n: usize = self.count(status);
        if n > 0 {
            rows.push((status.as_str().to_owned(), n as u64));
        }
        assert(rows@.map_values(view) =~= before + count_row(self@.events, status));
    }

    /// Puts a closing back as it was stored, in place of that of the same
    /// issue.
    pub fn restore_closing(&mut self, closing: AutoClose)
        requires
            old(self)@.valid(),
        ensures
            final(self)@.valid(),
            final(self)@ == old(self)@.scheduled(closing@),
    {
        let ghost before = self@;
        let ghost new = closing@;
        let i: usize = self.find_closing(
            closing.owner.as_str(),
            closing.repo.as_str(),
            closing.number,
        );
        proof {
            lemma_closing_index(before.closings, new.owner, new.repo, new.number);
        }
        if i < self.closings.len() {
            self.closings[i] = closing;
            assert(self@.closings =~= before.closings.update(i as int, new));
        } else {
            self.closings.push(closing);
            assert(self@.closings =~= before.closings.push(new));
        }
        assert(self@ =~= before.scheduled(new));
    }

    /// Schedules the closing of an issue. A closing that was scheduled before,
    /// or is done, gives way to the new one.
    pub fn schedule_autoclose(
        &mut self,
        owner: &str,
        repo: &str,
        number: i64,
        author_login: &str,
        close_at: u64,
    )
        requires
            old(self)@.valid(),
        ensures
            final(self)@.valid(),
            final(self)@ == old(self)@.scheduled(
                (AutoCloseModel {
                    owner: owner@,
                    repo: repo@,
                    number: number as int,
                    author_login: author_login@,
                    close_at: close_at as int,
                    closed_at: None,
                }),
            ),
    {
        self.restore_closing(
            AutoClose {
                owner: owner.to_owned(),
                repo: repo.to_owned(),
                number,
                author_login: author_login.to_owned(),
                close_at,
                closed_at: None,
            },
        )
    }

    /// The closings that are due at time `now`, the soonest first, no more than
    /// `limit`.
    pub fn due_autocloses(&self, limit: usize, now: u64) -> (r: Vec<AutoClose>)
        ensures
            closings_view(r@) == at_most(due(self@.closings, now as int), limit as int),
    {
        let ghost all = self@.closings;
        let ghost wanted = |a: AutoCloseModel| a.closed_at is None && a.close_at <= now as int;
        let mut found: Vec<AutoClose> = Vec::new();
        let mut i: usize = 0;
        proof {
            reveal(Seq::filter);
            assert(closings_view(found@) =~= all.take(0).filter(wanted));
        }
        while i < self.closings.len()
            invariant
                i <= self.closings@.len(),
                all == closings_view(self.closings@),
                wanted == (|a: AutoCloseModel| a.closed_at is None && a.close_at <= now as int),
                closings_view(found@) == all.take(i as int).filter(wanted),
            decreases self.closings.len() - i,
        {
            proof {
                reveal(Seq::filter);
                assert(all.take(i + 1).drop_last() == all.take(i as int));
                assert(all.take(i + 1).last() == self.closings@[i as int]@);
            }
            if self.closings[i].closed_at.is_none() && self.closings[i].close_at <= now {
                let ghost before = closings_view(found@);
                let a = self.closings[i].copy();
                found.push(a);
                assert(closings_view(found@) =~= before.push(a@));
            }
            i += 1;
        }
        assert(all.take(all.len() as int) == all);
        arrange_closings(&found, limit)
    }

    /// Marks the closing of an issue as done.
    pub fn complete_autoclose(&mut self, owner: &str, repo: &str, number: i64, now: u64)
        requires
            old(self)@.valid(),
        ensures
            final(self)@.valid(),
            final(self)@ == old(self)@.completed(owner@, repo@, number as int, now as int),
    {
        let i: usize = self.find_closing(owner, repo, number);
        if i < self.closings.len() {
            let ghost before = self@;
            let mut a = self.closings[i].copy();
            a.closed_at = Some(now);
            let ghost new = a@;
            self.closings[i] = a;
            assert(self@.closings =~= before.closings.update(i as int, new));
            assert(self@ =~= before.completed(owner@, repo@, number as int, now as int));
        }
    }
}

// ---------------------------------------------------------------------------
// Laws
// ---------------------------------------------------------------------------

proof fn lemma_same_ids(a: Seq<EventModel>, b: Seq<EventModel>, id: Seq<char>)
    requires
        a.len() == b.len(),
        forall|i: int| 0 <= i < a.len() ==> (#[trigger] a[i]).delivery_id == b[i].delivery_id,
    ensures
        event_index(a, id) == event_index(b, id),
    decreases a.len(),
{
    if a.len() > 0 && a[0].delivery_id != id {
        let x = a.drop_first();
        let y = b.drop_first();
        assert forall|i: int| 0 <= i < x.len() implies (#[trigger] x[i]).delivery_id
            == y[i].delivery_id by {
            assert(x[i] == a[i + 1]);
        }
        lemma_same_ids(x, y, id);
    }
}

proof fn lemma_index_after_push(events: Seq<EventModel>, e: EventModel)
    requires
        !has_event(events, e.delivery_id),
    ensures
        event_index(events.push(e), e.delivery_id) == events.len(),
    decreases events.len(),
{
    lemma_event_index(events, e.delivery_id);
    lemma_event_index(events.push(e), e.delivery_id);
    let k = event_index(events.push(e), e.delivery_id);
    if k < events.len() {
        assert(events[k] == events.push(e)[k]);
    }
    assert(events.push(e)[events.len() as int] == e);
}

proof fn lemma_same_members<A>(a: Seq<A>, b: Seq<A>, x: A)
    requires
        a.to_multiset() == b.to_multiset(),
    ensures
        a.contains(x) == b.contains(x),
{
    broadcast use vstd::seq_lib::group_to_multiset_ensures;

    assert(a.to_multiset().count(x) > 0 <==> a.contains(x));
    assert(b.to_multiset().count(x) > 0 <==> b.contains(x));
}

/// A delivery that comes again changes nothing, whatever it holds: each id is
/// stored once.
pub proof fn law_delivery_is_stored_once(store: StoreModel, first: EventModel, again: EventModel)
    requires
        first.delivery_id == again.delivery_id,
    ensures
        has_event(store.enqueued(first).events, first.delivery_id),
        store.enqueued(first).enqueued(again) == store.enqueued(first),
{
    if !has_event(store.events, first.delivery_id) {
        lemma_index_after_push(store.events, first);
    }
}

/// A new event waits until it is claimed; once it is claimed, done or failed,
/// it waits no more, so that it is claimed once at most.
pub proof fn law_event_is_claimed_once(
    store: StoreModel,
    id: Seq<char>,
    session_dir: Option<Seq<char>>,
    now: int,
)
    ensures
        !store.claimed(id, now).is_pending(id),
        !store.finished(id, session_dir, now).is_pending(id),
        !store.failed(id, now).is_pending(id),
{
    lemma_event_index(store.events, id);
    let k = event_index(store.events, id);
    if has_event(store.events, id) {
        let e = store.event(id);
        let claimed = EventModel { status: EventStatus::Running, updated_at: now, ..e };
        let finished = EventModel { status: EventStatus::Done, session_dir, updated_at: now, ..e };
        let failed = EventModel { status: EventStatus::Error, updated_at: now, ..e };
        lemma_same_ids(store.events, store.events.update(k, claimed), id);
        lemma_same_ids(store.events, store.events.update(k, finished), id);
        lemma_same_ids(store.events, store.events.update(k, failed), id);
    }
}

/// Claiming, finishing or failing one event leaves all others as they are.
pub proof fn law_other_events_are_left_alone(
    store: StoreModel,
    id: Seq<char>,
    session_dir: Option<Seq<char>>,
    now: int,
    i: int,
)
    requires
        store.valid(),
        0 <= i < store.events.len(),
        store.events[i].delivery_id != id,
    ensures
        store.claimed(id, now).events[i] == store.events[i],
        store.finished(id, session_dir, now).events[i] == store.events[i],
        store.failed(id, now).events[i] == store.events[i],
{
    lemma_event_index(store.events, id);
}

/// The events that wait are all handed out, and no others, if there is no
/// limit to their number.
pub proof fn law_pending_events_are_those_that_wait(events: Seq<EventModel>, e: EventModel)
    ensures
        answers(events, Query::Pending).contains(e) <==> events.contains(e) && e.status
            == EventStatus::Pending,
{
    let wanted = |x: EventModel| Query::Pending.matches(x);
    let kept = events.filter(wanted);
    law_oldest_first(kept);
    let sorted = oldest_first(kept);
    lemma_same_members(sorted, kept, e);
    if kept.contains(e) {
        let k = choose|k: int| 0 <= k < kept.len() && kept[k] == e;
        events.lemma_filter_pred(wanted, k);
        events.lemma_filter_contains_rev(wanted, e);
    }
    if events.contains(e) && e.status == EventStatus::Pending {
        let k = choose|k: int| 0 <= k < events.len() && events[k] == e;
        assert(wanted(events[k]));
        events.lemma_filter_contains(wanted, k);
    }
}

pub open spec fn ids_differ(events: Seq<EventModel>) -> bool {
    forall|i: int, j: int|
        0 <= i < j < events.len() ==> (#[trigger] events[i]).delivery_id != (
        #[trigger] events[j]).delivery_id
}

proof fn lemma_filter_keeps_ids_apart(events: Seq<EventModel>, wanted: spec_fn(EventModel) -> bool)
    requires
        ids_differ(events),
    ensures
        ids_differ(events.filter(wanted)),
    decreases events.len(),
{
    reveal(Seq::filter);
    if events.len() > 0 {
        let rest = events.drop_last();
        let kept = rest.filter(wanted);
        assert(ids_differ(rest));
        lemma_filter_keeps_ids_apart(rest, wanted);
        assert forall|i: int| 0 <= i < kept.len() implies (#[trigger] kept[i]).delivery_id
            != events.last().delivery_id by {
            assert(kept.contains(kept[i]));
            rest.lemma_filter_contains_rev(wanted, kept[i]);
            let k = choose|k: int| 0 <= k < rest.len() && rest[k] == kept[i];
            assert(events[k] == kept[i]);
        }
    }
}

/// No event is handed out twice.
pub proof fn law_answers_hold_each_event_once(store: StoreModel, query: Query<'_>)
    requires
        store.valid(),
    ensures
        ids_differ(answers(store.events, query)),
{
    let wanted = |e: EventModel| query.matches(e);
    let kept = store.events.filter(wanted);
    let keys = kept.map_values(|e: EventModel| e.created_at);
    let n = kept.len() as int;
    let order = order_of(keys, n);
    lemma_filter_keeps_ids_apart(store.events, wanted);
    law_order_keeps_all(keys, n);
    law_order_is_by_key(keys, n);
    let found = answers(store.events, query);
    assert forall|i: int, j: int| 0 <= i < j < found.len() implies (
    #[trigger] found[i]).delivery_id != (#[trigger] found[j]).delivery_id by {
        assert(order.contains(order[i]) && order.contains(order[j]));
        assert(in_order(keys, order[i], order[j]));
        assert(order[i] != order[j]);
        assert(found[i] == kept[order[i]] && found[j] == kept[order[j]]);
        if order[i] < order[j] {
            assert(kept[order[i]].delivery_id != kept[order[j]].delivery_id);
        } else {
            assert(kept[order[j]].delivery_id != kept[order[i]].delivery_id);
        }
    }
}

/// The session that a follow-up goes on with is never that of the follow-up
/// itself, and is always the session of another event of the same issue.
pub proof fn law_prior_session_is_of_another_event(
    events: Seq<EventModel>,
    owner: &str,
    repo: &str,
    number: i64,
    delivery_id: &str,
)
    ensures
        ({
            let found = answers(events, Query::Prior { owner, repo, number, delivery_id });
            found.len() > 0 ==> {
                let e = found.last();
                &&& events.contains(e)
                &&& e.delivery_id != delivery_id@
                &&& is_event_of(e, owner@, repo@, number as int)
                &&& e.session_dir is Some
            }
        }),
{
    let query = Query::Prior { owner, repo, number, delivery_id };
    let wanted = |x: EventModel| query.matches(x);
    let kept = events.filter(wanted);
    law_oldest_first(kept);
    let sorted = oldest_first(kept);
    if sorted.len() > 0 {
        let e = sorted.last();
        assert(sorted.contains(e));
        lemma_same_members(sorted, kept, e);
        let k = choose|k: int| 0 <= k < kept.len() && kept[k] == e;
        events.lemma_filter_pred(wanted, k);
        events.lemma_filter_contains_rev(wanted, e);
    }
}

proof fn lemma_due_members(closings: Seq<AutoCloseModel>, now: int, a: AutoCloseModel)
    ensures
        due(closings, now).contains(a) <==> closings.contains(a) && a.closed_at is None
            && a.close_at <= now,
{
    let wanted = |x: AutoCloseModel| x.closed_at is None && x.close_at <= now;
    let kept = closings.filter(wanted);
    law_soonest_first(kept);
    let sorted = soonest_first(kept);
    lemma_same_members(sorted, kept, a);
    if kept.contains(a) {
        let k = choose|k: int| 0 <= k < kept.len() && kept[k] == a;
        closings.lemma_filter_pred(wanted, k);
        closings.lemma_filter_contains_rev(wanted, a);
    }
    if closings.contains(a) && a.closed_at is None && a.close_at <= now {
        let k = choose|k: int| 0 <= k < closings.len() && closings[k] == a;
        assert(wanted(closings[k]));
        closings.lemma_filter_contains(wanted, k);
    }
}

/// A closing is due once its time has come and until it is done, and no other
/// one is.
pub proof fn law_due_closings(store: StoreModel, now: int, a: AutoCloseModel)
    ensures
        due(store.closings, now).contains(a) <==> store.closings.contains(a) && a.closed_at is None
            && a.close_at <= now,
{
    lemma_due_members(store.closings, now, a);
}

/// A closing that is done is not due again, at any time, unless it is
/// scheduled anew.
pub proof fn law_completed_closing_is_not_due(
    store: StoreModel,
    owner: Seq<char>,
    repo: Seq<char>,
    number: int,
    now: int,
    later: int,
    a: AutoCloseModel,
)
    requires
        store.valid(),
        is_closing_of(a, owner, repo, number),
    ensures
        !due(store.completed(owner, repo, number, now).closings, later).contains(a),
{
    let after = store.completed(owner, repo, number, now).closings;
    lemma_closing_index(store.closings, owner, repo, number);
    lemma_due_members(after, later, a);
    let i = closing_index(store.closings, owner, repo, number);
    if after.contains(a) {
        let k = choose|k: int| 0 <= k < after.len() && after[k] == a;
        if k != i {
            assert(after[k] == store.closings[k]);
            assert(is_closing_of(store.closings[k], owner, repo, number));
            if i < store.closings.len() {
                let (lo, hi) = if i < k {
                    (i, k)
                } else {
                    (k, i)
                };
                assert(is_closing_of(store.closings[lo], store.closings[hi].owner, store.closings[hi].repo, store.closings[hi].number));
            }
        }
    }
}

/// A closing that is scheduled anew is due when its new time has come, whether
/// or not an earlier one is done.
pub proof fn law_rescheduling_reopens(store: StoreModel, a: AutoCloseModel, now: int)
    requires
        a.closed_at is None,
        a.close_at <= now,
    ensures
        due(store.scheduled(a).closings, now).contains(a),
{
    let after = store.scheduled(a).closings;
    lemma_closing_index(store.closings, a.owner, a.repo, a.number);
    let i = closing_index(store.closings, a.owner, a.repo, a.number);
    assert(after[i] == a);
    assert(after.contains(a));
    lemma_due_members(after, now, a);
}

/// An event is stored, and waits, exactly where one of the events has its id, and
/// is marked as waiting.
pub proof fn law_events_are_found_by_id(store: StoreModel, id: Seq<char>)
    requires
        store.valid(),
    ensures
        has_event(store.events, id) <==> exists|k: int|
            0 <= k < store.events.len() && (#[trigger] store.events[k]).delivery_id == id,
        store.is_pending(id) <==> exists|k: int|
            0 <= k < store.events.len() && (#[trigger] store.events[k]).delivery_id == id
                && store.events[k].status == EventStatus::Pending,
{
    lemma_event_index(store.events, id);
    let x = event_index(store.events, id);
    if exists|k: int| 0 <= k < store.events.len() && (#[trigger] store.events[k]).delivery_id == id {
        let k = choose|k: int|
            0 <= k < store.events.len() && (#[trigger] store.events[k]).delivery_id == id;
        assert(x <= k);
    }
    if exists|k: int|
        0 <= k < store.events.len() && (#[trigger] store.events[k]).delivery_id == id
            && store.events[k].status == EventStatus::Pending {
        let k = choose|k: int|
            0 <= k < store.events.len() && (#[trigger] store.events[k]).delivery_id == id
                && store.events[k].status == EventStatus::Pending;
        assert(x <= k);
        if x < k {
            assert(store.events[x].delivery_id != store.events[k].delivery_id);
        }
    }
}

/// An event that is claimed runs, if it waited; one that is done has its session;
/// one that failed is marked so. What else is known of the event stays, its time
/// of change is noted, and nothing but this event changes.
pub proof fn law_marks_on_events(
    store: StoreModel,
    k: int,
    session_dir: Option<Seq<char>>,
    now: int,
)
    requires
        store.valid(),
        0 <= k < store.events.len(),
    ensures
        ({
            let e = store.events[k];
            let id = e.delivery_id;
            let claimed = store.claimed(id, now);
            let finished = store.finished(id, session_dir, now);
            let failed = store.failed(id, now);
            let running = EventModel {
                delivery_id: id,
                event_type: e.event_type,
                owner: e.owner,
                repo: e.repo,
                number: e.number,
                payload: e.payload,
                status: EventStatus::Running,
                session_dir: e.session_dir,
                created_at: e.created_at,
                updated_at: now,
            };
            let done = EventModel { status: EventStatus::Done, session_dir, ..running };
            let error = EventModel { status: EventStatus::Error, ..running };
            &&& e.status == EventStatus::Pending ==> claimed.events == store.events.update(
                k,
                running,
            )
            &&& e.status != EventStatus::Pending ==> claimed == store
            &&& finished.events == store.events.update(k, done)
            &&& failed.events == store.events.update(k, error)
            &&& claimed.closings == store.closings && claimed.calls == store.calls
            &&& finished.closings == store.closings && finished.calls == store.calls
            &&& failed.closings == store.closings && failed.calls == store.calls
        }),
{
    let id = store.events[k].delivery_id;
    lemma_event_index(store.events, id);
    let x = event_index(store.events, id);
    assert(x <= k);
    if x < k {
        assert(store.events[x].delivery_id != store.events[k].delivery_id);
    }
}

/// A mark on an event that is not stored changes nothing; an event whose id is
/// new is put behind the others.
pub proof fn law_events_that_are_not_stored(
    store: StoreModel,
    e: EventModel,
    session_dir: Option<Seq<char>>,
    now: int,
)
    requires
        forall|k: int|
            0 <= k < store.events.len() ==> (#[trigger] store.events[k]).delivery_id
                != e.delivery_id,
    ensures
        store.claimed(e.delivery_id, now) == store,
        store.finished(e.delivery_id, session_dir, now) == store,
        store.failed(e.delivery_id, now) == store,
        store.enqueued(e).events == store.events.push(e),
        store.enqueued(e).closings == store.closings,
        store.enqueued(e).calls == store.calls,
{
    lemma_event_index(store.events, e.delivery_id);
    let x = event_index(store.events, e.delivery_id);
    if x < store.events.len() {
        assert(store.events[x].delivery_id == e.delivery_id);
    }
}

/// An issue has one closing: to schedule it anew replaces the one that there is,
/// to complete it notes the time, and neither touches anything else.
pub proof fn law_marks_on_closings(store: StoreModel, k: int, a: AutoCloseModel, now: int)
    requires
        store.valid(),
        0 <= k < store.closings.len(),
        store.closings[k].owner == a.owner,
        store.closings[k].repo == a.repo,
        store.closings[k].number == a.number,
    ensures
        ({
            let c = store.closings[k];
            let scheduled = store.scheduled(a);
            let completed = store.completed(a.owner, a.repo, a.number, now);
            &&& scheduled.closings == store.closings.update(k, a)
            &&& completed.closings == store.closings.update(
                k,
                AutoCloseModel {
                    owner: c.owner,
                    repo: c.repo,
                    number: c.number,
                    author_login: c.author_login,
                    close_at: c.close_at,
                    closed_at: Some(now),
                },
            )
            &&& scheduled.events == store.events && scheduled.calls == store.calls
            &&& completed.events == store.events && completed.calls == store.calls
        }),
{
    lemma_closing_index(store.closings, a.owner, a.repo, a.number);
    let x = closing_index(store.closings, a.owner, a.repo, a.number);
    assert(is_closing_of(store.closings[k], a.owner, a.repo, a.number));
    assert(x <= k);
    if x < k {
        assert(!is_closing_of(
            store.closings[x],
            store.closings[k].owner,
            store.closings[k].repo,
            store.closings[k].number,
        ));
    }
}

/// The closing of an issue that has none yet is put behind the others.
pub proof fn law_new_closings(store: StoreModel, a: AutoCloseModel, now: int)
    requires
        forall|k: int|
            0 <= k < store.closings.len() ==> (#[trigger] store.closings[k]).owner != a.owner
                || store.closings[k].repo != a.repo || store.closings[k].number != a.number,
    ensures
        store.scheduled(a).closings == store.closings.push(a),
        store.scheduled(a).events == store.events,
        store.scheduled(a).calls == store.calls,
        store.completed(a.owner, a.repo, a.number, now) == store,
{
    lemma_closing_index(store.closings, a.owner, a.repo, a.number);
    let x = closing_index(store.closings, a.owner, a.repo, a.number);
    if x < store.closings.len() {
        assert(is_closing_of(store.closings[x], a.owner, a.repo, a.number));
    }
}

/// A question is answered with the events that it asks for and no others, the
/// oldest first: those that wait, those of an issue, or those of an issue that
/// have a session, but for one.
pub proof fn law_answers_to_questions(
    events: Seq<EventModel>,
    owner: &str,
    repo: &str,
    number: i64,
    delivery_id: &str,
    e: EventModel,
)
    ensures
        ({
            let waiting = answers(events, Query::Pending);
            let of_issue = answers(events, Query::Issue { owner, repo, number });
            let prior = answers(events, Query::Prior { owner, repo, number, delivery_id });
            let same = e.owner == owner@ && e.repo == repo@ && e.number == number;
            &&& waiting.contains(e) <==> events.contains(e) && e.status == EventStatus::Pending
            &&& of_issue.contains(e) <==> events.contains(e) && same
            &&& prior.contains(e) <==> events.contains(e) && same && e.session_dir is Some
                && e.delivery_id != delivery_id@
            &&& of_issue.contains(e) ==> e.created_at <= of_issue.last().created_at
            &&& prior.contains(e) ==> e.created_at <= prior.last().created_at
            &&& forall|i: int, j: int|
                0 <= i < j < waiting.len() ==> (#[trigger] waiting[i]).created_at <= (
                #[trigger] waiting[j]).created_at
        }),
{
    lemma_answers(events, Query::Pending, e);
    lemma_answers(events, Query::Issue { owner, repo, number }, e);
    lemma_answers(events, Query::Prior { owner, repo, number, delivery_id }, e);
}

proof fn lemma_answers(events: Seq<EventModel>, query: Query<'_>, e: EventModel)
    ensures
        ({
            let found = answers(events, query);
            &&& found.contains(e) <==> events.contains(e) && query.matches(e)
            &&& found.contains(e) ==> e.created_at <= found.last().created_at
            &&& forall|i: int, j: int|
                0 <= i < j < found.len() ==> (#[trigger] found[i]).created_at <= (
                #[trigger] found[j]).created_at
        }),
{
    let wanted = |x: EventModel| query.matches(x);
    let kept = events.filter(wanted);
    law_oldest_first(kept);
    let sorted = oldest_first(kept);
    lemma_same_members(sorted, kept, e);
    if kept.contains(e) {
        let k = choose|k: int| 0 <= k < kept.len() && kept[k] == e;
        events.lemma_filter_pred(wanted, k);
        events.lemma_filter_contains_rev(wanted, e);
    }
    if events.contains(e) && query.matches(e) {
        let k = choose|k: int| 0 <= k < events.len() && events[k] == e;
        assert(wanted(events[k]));
        events.lemma_filter_contains(wanted, k);
    }
    if sorted.contains(e) {
        let k = choose|k: int| 0 <= k < sorted.len() && sorted[k] == e;
        if k < sorted.len() - 1 {
            assert(sorted[k].created_at <= sorted[sorted.len() - 1].created_at);
        }
    }
}

/// A limit cuts a list off behind its first members.
pub proof fn law_limits<A>(s: Seq<A>, limit: int)
    requires
        0 <= limit,
    ensures
        s.len() <= limit ==> at_most(s, limit) == s,
        s.len() > limit ==> at_most(s, limit).len() == limit,
        forall|i: int| 0 <= i < at_most(s, limit).len() ==> #[trigger] at_most(s, limit)[i] == s[i],
{
}

/// Events are counted by their status; a status that no event has is left out.
pub proof fn law_counts(events: Seq<EventModel>, e: EventModel, status: EventStatus)
    ensures
        status_count(Seq::empty(), status) == 0,
        status_count(events.push(e), status) == status_count(events, status) + if e.status == status {
            1int
        } else {
            0int
        },
        status_count(events, status) > 0 ==> count_row(events, status) == seq![
            (status.name(), status_count(events, status) as int),
        ],
        status_count(events, status) == 0 ==> count_row(events, status).len() == 0,
        EventStatus::Pending.name() == "pending"@,
        EventStatus::Running.name() == "running"@,
        EventStatus::Done.name() == "done"@,
        EventStatus::Error.name() == "error"@,
{
    reveal(Seq::filter);
    assert(events.push(e).drop_last() =~= events);
}

} // verus!
