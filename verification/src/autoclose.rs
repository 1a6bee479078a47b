//! Closing questions after a while, unless their author objects.

use vstd::prelude::*;
use vstd::string::*;

use crate::db;
use crate::db::{AutoClose, Store};
use crate::gh_writeback::RepoRef;
use crate::json;
use crate::json::Json;
use crate::text;

verus! {

/// How many closings are looked at in one pass.
pub const BATCH_LIMIT: usize = 50;

/// The seconds between two passes.
pub const POLL_SECONDS: u64 = 60;

/// The microseconds of an hour.
pub const HOUR: u64 = 3_600_000_000;

/// What became of a question whose time had come.
#[derive(Debug, Clone, Copy, PartialEq, Eq, Structural)]
pub enum AutoCloseOutcome {
    Closed,
    /// The author of the issue voted it down, which keeps it open.
    AuthorVetoed,
}

/// The reaction is a downvote of the author; logins differ in case only where
/// they are the same.
pub open spec fn is_veto(reaction: json::Tree, author: Seq<char>) -> bool {
    &&& reaction.text_at("content"@) == Some("-1"@)
    &&& reaction.text_at2("user"@, "login"@) matches Some(login) && text::same_but_case(
        login,
        author,
    )
}

/// One of the reactions is a downvote of the author.
pub open spec fn some_veto(reactions: Seq<json::Tree>, author: Seq<char>) -> bool {
    exists|i: int| 0 <= i < reactions.len() && is_veto(#[trigger] reactions[i], author)
}

/// The author of an issue has voted it down.
pub open spec fn is_vetoed(reactions: json::Tree, author: Seq<char>) -> bool {
    match reactions.as_array() {
        Some(items) => some_veto(items, author),
        None => false,
    }
}

/// Whether the author of an issue has voted it down. An answer that is no list
/// holds no reactions.
pub fn author_downvoted(reactions: &Json, author_login: &str) -> (r: bool)
    ensures
        r == is_vetoed(reactions@, author_login@),
{
    let items = match reactions.as_array() {
        Some(items) => items,
        None => return false,
    };
    let ghost all = json::trees(items@);
    let mut i: usize = 0;
    while i < items.len()
        invariant
            i <= items.len(),
            all == json::trees(items@),
            is_vetoed(reactions@, author_login@) == some_veto(all, author_login@),
            forall|k: int| 0 <= k < i ==> !is_veto(#[trigger] all[k], author_login@),
        decreases items.len() - i,
    {
        assert(all[i as int] == items@[i as int]@);
        let down = match items[i].text_at("content") {
            Some(c) => text::same_text(c, "-1"),
            None => false,
        };
        let own = match items[i].text_at2("user", "login") {
            Some(login) => text::eq_ignore_ascii_case(login, author_login),
            None => false,
        };
        if down && own {
            assert(is_veto(all[i as int], author_login@));
            return true;
        }
        i += 1;
    }
    false
}

/// The login of the author of an issue, where the delivery names one.
pub open spec fn author_in(payload: json::Tree) -> Option<Seq<char>> {
    match payload.get("issue"@) {
        Some(issue) => match issue.text_at2("user"@, "login"@) {
            Some(login) if login.len() > 0 => Some(login),
            _ => None,
        },
        None => None,
    }
}

/// The login of the author of an issue, where the delivery names one.
pub fn issue_author_login<'a>(payload: &'a Json) -> (r: Option<&'a str>)
    ensures
        json::text_of(r) == author_in(payload@),
{
    match payload.get("issue") {
        Some(issue) => match issue.text_at2("user", "login") {
            Some(login) => if login.is_empty() {
                None
            } else {
                Some(login)
            },
            None => None,
        },
        None => None,
    }
}

/// The time some hours after `now`, as far as it can be told.
pub open spec fn hours_later(now: int, hours: int) -> int {
    if now + hours * HOUR <= u64::MAX {
        now + hours * HOUR
    } else {
        u64::MAX as int
    }
}

fn add_hours(now: u64, hours: u64) -> (r: u64)
    ensures
        r == hours_later(now as int, hours as int),
{
    let at: u128 = now as u128 + hours as u128 * 3_600_000_000u128;
    if at <= u64::MAX as u128 {
        at as u64
    } else {
        u64::MAX
    }
}

/// The closing of a question that is scheduled some hours from now, if it is.
/// Without its author an objection could not be told, so that the question
/// stays open.
pub open spec fn closing_for(
    owner: Seq<char>,
    repo: Seq<char>,
    number: int,
    payload: json::Tree,
    hours: int,
    now: int,
) -> Option<db::AutoCloseModel> {
    match author_in(payload) {
        Some(author) => Some(
            db::AutoCloseModel {
                owner,
                repo,
                number,
                author_login: author,
                close_at: hours_later(now, hours),
                closed_at: None,
            },
        ),
        None => None,
    }
}

/// Schedules the closing of a question some hours from now, and tells what was
/// scheduled.
pub fn schedule_question_autoclose(
    store: &mut Store,
    repo_ref: &RepoRef,
    payload: &Json,
    hours: u64,
    now: u64,
) -> (r: Option<AutoClose>)
    requires
        old(store)@.valid(),
    ensures
        final(store)@.valid(),
        ({
            let entry = closing_for(
                repo_ref.owner@,
                repo_ref.repo@,
                repo_ref.number as int,
                payload@,
                hours as int,
                now as int,
            );
            &&& entry == match r {
                Some(e) => Some(e@),
                None => None,
            }
            &&& final(store)@ == match entry {
                Some(e) => old(store)@.scheduled(e),
                None => old(store)@,
            }
        }),
{
    match issue_author_login(payload) {
        Some(author) => {
            let close_at: u64 = add_hours(now, hours);
            store.schedule_autoclose(
                repo_ref.owner.as_str(),
                repo_ref.repo.as_str(),
                repo_ref.number,
                author,
                close_at,
            );
            Some(
                AutoClose {
                    owner: repo_ref.owner.clone(),
                    repo: repo_ref.repo.clone(),
                    number: repo_ref.number,
                    author_login: author.to_owned(),
                    close_at,
                    closed_at: None,
                },
            )
        },
        None => None,
    }
}

/// What is to be done with a question once its reactions are known.
pub fn close_question_issue(reactions: &Json, author_login: &str) -> (r: AutoCloseOutcome)
    ensures
        r == if is_vetoed(reactions@, author_login@) {
            AutoCloseOutcome::AuthorVetoed
        } else {
            AutoCloseOutcome::Closed
        },
{
    if author_downvoted(reactions, author_login) {
        AutoCloseOutcome::AuthorVetoed
    } else {
        AutoCloseOutcome::Closed
    }
}

/// The closings that one pass looks at.
pub fn due_closings(store: &Store, now: u64) -> (r: Vec<AutoClose>)
    ensures
        db::closings_view(r@) == db::at_most(
            db::due(store@.closings, now as int),
            BATCH_LIMIT as int,
        ),
{
    store.due_autocloses(BATCH_LIMIT, now)
}

/// Takes note of what became of one closing of a pass; whether it was handled.
/// One that failed is left as it is, so that the next pass tries it again.
pub fn settle_closing(
    store: &mut Store,
    entry: &AutoClose,
    outcome: Option<AutoCloseOutcome>,
    now: u64,
) -> (r: bool)
    requires
        old(store)@.valid(),
    ensures
        final(store)@.valid(),
        r == (outcome is Some),
        final(store)@ == if outcome is Some {
            old(store)@.completed(entry@.owner, entry@.repo, entry@.number, now as int)
        } else {
            old(store)@
        },
{
    if outcome.is_none() {
        return false;
    }
    store.complete_autoclose(entry.owner.as_str(), entry.repo.as_str(), entry.number, now);
    true
}

/// What follows an answer that a pass was given.
#[derive(Debug, Clone, Copy, PartialEq, Eq, Structural)]
pub enum ClosingStep {
    /// The issue is to be closed.
    Close,
    /// The closing is settled: with an outcome, or to be tried again where
    /// there is none.
    Settled(Option<AutoCloseOutcome>),
}

/// What follows the reactions to a question: it is closed unless its author
/// objects, and left alone where the reactions could not be read.
pub open spec fn step_on_reactions(reactions: Option<json::Tree>, author: Seq<char>) -> ClosingStep {
    match reactions {
        None => ClosingStep::Settled(None),
        Some(t) => if is_vetoed(t, author) {
            ClosingStep::Settled(Some(AutoCloseOutcome::AuthorVetoed))
        } else {
            ClosingStep::Close
        },
    }
}

/// What follows the request to close a question: it is left for the next pass
/// where the request failed.
pub open spec fn step_on_closed(success: bool) -> ClosingStep {
    ClosingStep::Settled(
        if success {
            Some(AutoCloseOutcome::Closed)
        } else {
            None
        },
    )
}

/// What a pass asks for next.
#[derive(Debug)]
pub enum ClosingAction {
    /// The reactions to the issue.
    Ask(AutoClose),
    /// That the issue be closed.
    Close(AutoClose),
    /// Nothing; so many closings were handled.
    Finish(usize),
}

/// A pass over the closings whose time has come: it takes them one by one, and
/// counts those that were handled.
#[derive(Debug)]
pub struct ClosingPass {
    entries: Vec<AutoClose>,
    at: usize,
    handled: usize,
    closing: bool,
}

impl ClosingPass {
    /// The closings that the pass looks at.
    pub closed spec fn entries(&self) -> Seq<db::AutoCloseModel> {
        db::closings_view(self.entries@)
    }

    /// The number of closings that were settled.
    pub closed spec fn settled(&self) -> nat {
        self.at as nat
    }

    /// The number of closings that were handled.
    pub closed spec fn handled(&self) -> nat {
        self.handled as nat
    }

    /// The issue of the closing that is next is being closed; else its
    /// reactions are asked for.
    pub closed spec fn closing(&self) -> bool {
        self.closing
    }

    pub open spec fn valid(&self) -> bool {
        &&& self.handled() <= self.settled() <= self.entries().len()
        &&& self.closing() ==> self.settled() < self.entries().len()
    }

    /// The closing that is next.
    pub open spec fn entry(&self) -> db::AutoCloseModel {
        self.entries()[self.settled() as int]
    }

    /// The pass, and the store with it, after `step` on `before`.
    pub open spec fn follows(
        &self,
        before: ClosingPass,
        step: ClosingStep,
        store: db::StoreModel,
        after: db::StoreModel,
        now: int,
    ) -> bool {
        let entry = before.entry();
        &&& self.valid()
        &&& self.entries() == before.entries()
        &&& match step {
            ClosingStep::Close => {
                &&& self.closing()
                &&& self.settled() == before.settled()
                &&& self.handled() == before.handled()
                &&& after == store
            },
            ClosingStep::Settled(None) => {
                &&& !self.closing()
                &&& self.settled() == before.settled() + 1
                &&& self.handled() == before.handled()
                &&& after == store
            },
            ClosingStep::Settled(Some(_)) => {
                &&& !self.closing()
                &&& self.settled() == before.settled() + 1
                &&& self.handled() == before.handled() + 1
                &&& after == store.completed(entry.owner, entry.repo, entry.number, now)
            },
        }
    }

    /// Begins a pass over the closings that are due.
    pub fn start(store: &Store, now: u64) -> (r: ClosingPass)
        ensures
            r.valid(),
            r.entries() == db::at_most(
                db::due(store@.closings, now as int),
                BATCH_LIMIT as int,
            ),
            r.settled() == 0,
            r.handled() == 0,
            !r.closing(),
    {
        ClosingPass { entries: due_closings(store, now), at: 0, handled: 0, closing: false }
    }

    /// What the pass asks for next.
    pub fn action(&self) -> (r: ClosingAction)
        requires
            self.valid(),
        ensures
            match r {
                ClosingAction::Ask(a) => self.settled() < self.entries().len() && !self.closing()
                    && a@ == self.entry(),
                ClosingAction::Close(a) => self.closing() && a@ == self.entry(),
                ClosingAction::Finish(n) => self.settled() == self.entries().len() && n
                    == self.handled(),
            },
    {
        if self.at >= self.entries.len() {
            ClosingAction::Finish(self.handled)
        } else if self.closing {
            ClosingAction::Close(self.entries[self.at].copy())
        } else {
            ClosingAction::Ask(self.entries[self.at].copy())
        }
    }

    fn settle(&mut self, store: &mut Store, outcome: Option<AutoCloseOutcome>, now: u64)
        requires
            old(self).valid(),
            old(self).settled() < old(self).entries().len(),
            old(store)@.valid(),
        ensures
            final(store)@.valid(),
            final(self).follows(
                *old(self),
                ClosingStep::Settled(outcome),
                old(store)@,
                final(store)@,
                now as int,
            ),
    {
        let total: usize = self.entries.len();
        assert(self.at < total);
        let done = settle_closing(store, &self.entries[self.at], outcome, now);
        self.at += 1;
        self.closing = false;
        if done {
            self.handled += 1;
        }
    }

    /// Takes the reactions to the issue that is next; there are none where they
    /// could not be read.
    pub fn on_reactions(&mut self, store: &mut Store, reactions: Option<&Json>, now: u64) -> (r:
        ClosingStep)
        requires
            old(self).valid(),
            old(self).settled() < old(self).entries().len(),
            !old(self).closing(),
            old(store)@.valid(),
        ensures
            r == step_on_reactions(json::tree_of(reactions), old(self).entry().author_login),
            final(store)@.valid(),
            final(self).follows(*old(self), r, old(store)@, final(store)@, now as int),
    {
        let total: usize = self.entries.len();
        assert(self.at < total);
        let outcome = match reactions {
            None => None,
            Some(j) => match close_question_issue(j, self.entries[self.at].author_login.as_str()) {
                AutoCloseOutcome::Closed => {
                    self.closing = true;
                    return ClosingStep::Close;
                },
                AutoCloseOutcome::AuthorVetoed => Some(AutoCloseOutcome::AuthorVetoed),
            },
        };
        self.settle(store, outcome, now);
        ClosingStep::Settled(outcome)
    }

    /// Takes note of whether the issue could be closed.
    pub fn on_closed(&mut self, store: &mut Store, success: bool, now: u64) -> (r: ClosingStep)
        requires
            old(self).valid(),
            old(self).closing(),
            old(store)@.valid(),
        ensures
            r == step_on_closed(success),
            final(store)@.valid(),
            final(self).follows(*old(self), r, old(store)@, final(store)@, now as int),
    {
        let outcome = if success {
            Some(AutoCloseOutcome::Closed)
        } else {
            None
        };
        self.settle(store, outcome, now);
        ClosingStep::Settled(outcome)
    }
}

/// An issue is closed only after its reactions were read and hold no objection
/// of its author, and counts as closed only where the request went through; a
/// closing is tried again exactly where one of the two calls failed.
pub proof fn law_closing_takes_two_answers(
    reactions: Option<json::Tree>,
    author: Seq<char>,
    success: bool,
)
    ensures
        step_on_reactions(reactions, author) == ClosingStep::Close <==> reactions is Some
            && !is_vetoed(reactions->0, author),
        step_on_reactions(reactions, author) == ClosingStep::Settled(None) <==> reactions is None,
        step_on_closed(success) == ClosingStep::Settled(Some(AutoCloseOutcome::Closed))
            <==> success,
        step_on_closed(success) == ClosingStep::Settled(None) <==> !success,
{
}

/// The store after the first `n` closings of a pass, each settled at its time.
pub open spec fn after_pass(
    store: db::StoreModel,
    entries: Seq<db::AutoCloseModel>,
    outcomes: Seq<Option<AutoCloseOutcome>>,
    times: Seq<int>,
    n: int,
) -> db::StoreModel
    decreases n,
{
    if n <= 0 {
        store
    } else {
        let before = after_pass(store, entries, outcomes, times, n - 1);
        let entry = entries[n - 1];
        if outcomes[n - 1] is Some {
            before.completed(entry.owner, entry.repo, entry.number, times[n - 1])
        } else {
            before
        }
    }
}

/// The outcomes of the closings that were settled in the first `n` steps.
pub open spec fn outcomes_of(steps: Seq<ClosingStep>, n: int) -> Seq<Option<AutoCloseOutcome>>
    decreases n,
{
    if n <= 0 {
        Seq::empty()
    } else {
        match steps[n - 1] {
            ClosingStep::Close => outcomes_of(steps, n - 1),
            ClosingStep::Settled(o) => outcomes_of(steps, n - 1).push(o),
        }
    }
}

/// The times at which closings were settled in the first `n` steps.
pub open spec fn times_of(steps: Seq<ClosingStep>, times: Seq<int>, n: int) -> Seq<int>
    decreases n,
{
    if n <= 0 {
        Seq::empty()
    } else {
        match steps[n - 1] {
            ClosingStep::Close => times_of(steps, times, n - 1),
            ClosingStep::Settled(_) => times_of(steps, times, n - 1).push(times[n - 1]),
        }
    }
}

/// The number of closings with an outcome.
pub open spec fn handled_in(outcomes: Seq<Option<AutoCloseOutcome>>) -> nat {
    outcomes.filter(|o: Option<AutoCloseOutcome>| o is Some).len()
}

/// A pass that is taken from its start through `steps`, each at its time, with
/// the store as it is before and after each of them.
pub open spec fn is_run(
    passes: Seq<ClosingPass>,
    stores: Seq<db::StoreModel>,
    steps: Seq<ClosingStep>,
    times: Seq<int>,
    started: int,
) -> bool {
    &&& passes.len() == steps.len() + 1
    &&& stores.len() == steps.len() + 1
    &&& times.len() == steps.len()
    &&& stores[0].valid()
    &&& passes[0].valid()
    &&& passes[0].entries() == db::at_most(
        db::due(stores[0].closings, started),
        BATCH_LIMIT as int,
    )
    &&& passes[0].settled() == 0
    &&& passes[0].handled() == 0
    &&& forall|i: int|
        0 <= i < steps.len() ==> {
            &&& passes[i].settled() < passes[i].entries().len()
            &&& passes[i + 1].follows(
                passes[i],
                #[trigger] steps[i],
                stores[i],
                stores[i + 1],
                times[i],
            )
        }
}

proof fn lemma_completed_keeps_others(
    store: db::StoreModel,
    owner: Seq<char>,
    repo: Seq<char>,
    number: int,
    now: int,
    k: int,
)
    requires
        store.valid(),
        0 <= k < store.closings.len(),
        !db::is_closing_of(store.closings[k], owner, repo, number),
    ensures
        store.completed(owner, repo, number, now).closings[k] == store.closings[k],
{
    db::lemma_closing_index(store.closings, owner, repo, number);
}

proof fn lemma_completed_is_valid(
    store: db::StoreModel,
    owner: Seq<char>,
    repo: Seq<char>,
    number: int,
    now: int,
)
    requires
        store.valid(),
    ensures
        store.completed(owner, repo, number, now).valid(),
        store.completed(owner, repo, number, now).closings.len() == store.closings.len(),
{
    let after = store.completed(owner, repo, number, now);
    let i = db::closing_index(store.closings, owner, repo, number);
    db::lemma_closing_index(store.closings, owner, repo, number);
    if i < store.closings.len() {
        assert forall|a: int, b: int| 0 <= a < b < after.closings.len() implies !db::is_closing_of(
            #[trigger] after.closings[a],
            (#[trigger] after.closings[b]).owner,
            after.closings[b].repo,
            after.closings[b].number,
        ) by {
            assert(!db::is_closing_of(
                store.closings[a],
                store.closings[b].owner,
                store.closings[b].repo,
                store.closings[b].number,
            ));
        }
    }
}

/// A failure on one question does not stop the others: after a pass, every
/// closing that failed is as it was before, whatever became of the others.
pub proof fn law_failed_closing_is_left_pending(
    store: db::StoreModel,
    entries: Seq<db::AutoCloseModel>,
    outcomes: Seq<Option<AutoCloseOutcome>>,
    times: Seq<int>,
    n: int,
    k: int,
)
    requires
        store.valid(),
        0 <= n <= entries.len(),
        0 <= k < store.closings.len(),
        forall|i: int|
            0 <= i < n && outcomes[i] is Some ==> !db::is_closing_of(
                store.closings[k],
                (#[trigger] entries[i]).owner,
                entries[i].repo,
                entries[i].number,
            ),
    ensures
        after_pass(store, entries, outcomes, times, n).valid(),
        after_pass(store, entries, outcomes, times, n).closings.len() == store.closings.len(),
        after_pass(store, entries, outcomes, times, n).closings[k] == store.closings[k],
    decreases n,
{
    if n > 0 {
        law_failed_closing_is_left_pending(store, entries, outcomes, times, n - 1, k);
        let before = after_pass(store, entries, outcomes, times, n - 1);
        let entry = entries[n - 1];
        if outcomes[n - 1] is Some {
            lemma_completed_is_valid(before, entry.owner, entry.repo, entry.number, times[n - 1]);
            lemma_completed_keeps_others(before, entry.owner, entry.repo, entry.number, times[n - 1], k);
        }
    }
}

/// One of the first `n` closings of a pass is handled, and is that of the issue
/// of `a`.
spec fn handles(
    entries: Seq<db::AutoCloseModel>,
    outcomes: Seq<Option<AutoCloseOutcome>>,
    n: int,
    a: db::AutoCloseModel,
) -> bool {
    exists|i: int|
        0 <= i < n && outcomes[i] is Some && db::is_closing_of(
            a,
            (#[trigger] entries[i]).owner,
            entries[i].repo,
            entries[i].number,
        )
}

proof fn lemma_handled_closing_is_done(
    store: db::StoreModel,
    entries: Seq<db::AutoCloseModel>,
    outcomes: Seq<Option<AutoCloseOutcome>>,
    times: Seq<int>,
    n: int,
    j: int,
)
    requires
        store.valid(),
        0 <= n <= entries.len(),
        0 <= j < store.closings.len(),
    ensures
        after_pass(store, entries, outcomes, times, n).valid(),
        after_pass(store, entries, outcomes, times, n).closings.len() == store.closings.len(),
        db::is_closing_of(
            after_pass(store, entries, outcomes, times, n).closings[j],
            store.closings[j].owner,
            store.closings[j].repo,
            store.closings[j].number,
        ),
        handles(entries, outcomes, n, store.closings[j]) ==> after_pass(
            store,
            entries,
            outcomes,
            times,
            n,
        ).closings[j].closed_at is Some,
        !handles(entries, outcomes, n, store.closings[j]) ==> after_pass(
            store,
            entries,
            outcomes,
            times,
            n,
        ).closings[j] == store.closings[j],
    decreases n,
{
    if n > 0 {
        lemma_handled_closing_is_done(store, entries, outcomes, times, n - 1, j);
        let before = after_pass(store, entries, outcomes, times, n - 1);
        let a = store.closings[j];
        let entry = entries[n - 1];
        if outcomes[n - 1] is Some {
            lemma_completed_is_valid(before, entry.owner, entry.repo, entry.number, times[n - 1]);
            db::lemma_closing_index(before.closings, entry.owner, entry.repo, entry.number);
            let at = db::closing_index(before.closings, entry.owner, entry.repo, entry.number);
            if db::is_closing_of(a, entry.owner, entry.repo, entry.number) {
                assert(db::is_closing_of(
                    before.closings[j],
                    entry.owner,
                    entry.repo,
                    entry.number,
                ));
                if at < j {
                    assert(!db::is_closing_of(
                        before.closings[at],
                        before.closings[j].owner,
                        before.closings[j].repo,
                        before.closings[j].number,
                    ));
                }
                assert(at == j);
            }
        }
        if handles(entries, outcomes, n - 1, a) {
            let i = choose|i: int|
                0 <= i < n - 1 && outcomes[i] is Some && db::is_closing_of(
                    a,
                    (#[trigger] entries[i]).owner,
                    entries[i].repo,
                    entries[i].number,
                );
            assert(0 <= i < n && outcomes[i] is Some);
            assert(handles(entries, outcomes, n, a));
        }
    }
}

proof fn lemma_run(
    passes: Seq<ClosingPass>,
    stores: Seq<db::StoreModel>,
    steps: Seq<ClosingStep>,
    times: Seq<int>,
    started: int,
    n: int,
)
    requires
        is_run(passes, stores, steps, times, started),
        0 <= n <= steps.len(),
    ensures
        passes[n].valid(),
        passes[n].entries() == passes[0].entries(),
        outcomes_of(steps, n).len() == passes[n].settled(),
        times_of(steps, times, n).len() == passes[n].settled(),
        handled_in(outcomes_of(steps, n)) == passes[n].handled(),
        stores[n] == after_pass(
            stores[0],
            passes[0].entries(),
            outcomes_of(steps, n),
            times_of(steps, times, n),
            passes[n].settled() as int,
        ),
    decreases n,
{
    let wanted = |o: Option<AutoCloseOutcome>| o is Some;
    reveal(Seq::filter);
    if n > 0 {
        lemma_run(passes, stores, steps, times, started, n - 1);
        let step = steps[n - 1];
        let earlier = outcomes_of(steps, n - 1);
        let later = outcomes_of(steps, n);
        assert(passes[n].follows(passes[n - 1], step, stores[n - 1], stores[n], times[n - 1]));
        if step is Settled {
            let k = passes[n - 1].settled() as int;
            assert(later.drop_last() =~= earlier);
            assert(later.filter(wanted).len() == earlier.filter(wanted).len() + if later.last() is Some {
                1int
            } else {
                0int
            });
            lemma_after_pass_prefix(
                stores[0],
                passes[0].entries(),
                earlier,
                times_of(steps, times, n - 1),
                later,
                times_of(steps, times, n),
                k,
            );
        }
    }
}

proof fn lemma_after_pass_prefix(
    store: db::StoreModel,
    entries: Seq<db::AutoCloseModel>,
    outcomes: Seq<Option<AutoCloseOutcome>>,
    times: Seq<int>,
    more_outcomes: Seq<Option<AutoCloseOutcome>>,
    more_times: Seq<int>,
    n: int,
)
    requires
        forall|i: int| 0 <= i < n ==> #[trigger] outcomes[i] == more_outcomes[i],
        forall|i: int| 0 <= i < n ==> #[trigger] times[i] == more_times[i],
    ensures
        after_pass(store, entries, outcomes, times, n) == after_pass(
            store,
            entries,
            more_outcomes,
            more_times,
            n,
        ),
    decreases n,
{
    if n > 0 {
        lemma_after_pass_prefix(
            store,
            entries,
            outcomes,
            times,
            more_outcomes,
            more_times,
            n - 1,
        );
        assert(outcomes[n - 1] == more_outcomes[n - 1]);
        assert(times[n - 1] == more_times[n - 1]);
    }
}

/// A whole pass, up to any of its steps: the closings are settled in the order
/// in which they came, each once; those with an outcome are counted and are
/// done, and exactly those are no longer due.
pub proof fn law_pass_settles_its_closings(
    passes: Seq<ClosingPass>,
    stores: Seq<db::StoreModel>,
    steps: Seq<ClosingStep>,
    times: Seq<int>,
    started: int,
    now: int,
    a: db::AutoCloseModel,
)
    requires
        is_run(passes, stores, steps, times, started),
    ensures
        ({
            let n = steps.len() as int;
            let entries = passes[0].entries();
            let outcomes = outcomes_of(steps, n);
            let k = passes[n].settled() as int;
            &&& passes[n].entries() == entries
            &&& outcomes.len() == k
            &&& stores[n].valid()
            &&& stores[n] == after_pass(
                stores[0],
                entries,
                outcomes,
                times_of(steps, times, n),
                k,
            )
            &&& passes[n].handled() == handled_in(outcomes)
            &&& db::due(stores[n].closings, now).contains(a) <==> {
                &&& db::due(stores[0].closings, now).contains(a)
                &&& !exists|i: int| 0 <= i < k && outcomes[i] is Some && #[trigger] entries[i] == a
            }
        }),
{
    let n = steps.len() as int;
    let entries = passes[0].entries();
    let outcomes = outcomes_of(steps, n);
    let at = times_of(steps, times, n);
    let k = passes[n].settled() as int;
    let before = stores[0];
    let after = stores[n];
    lemma_run(passes, stores, steps, times, started, n);
    lemma_after_pass_valid(before, entries, outcomes, at, k);
    db::law_due_closings(before, now, a);
    db::law_due_closings(after, now, a);
    assert forall|i: int| 0 <= i < entries.len() implies before.closings.contains(
        #[trigger] entries[i],
    ) by {
        let all = db::due(before.closings, started);
        assert(entries[i] == all[i]);
        assert(all.contains(entries[i]));
        db::law_due_closings(before, started, entries[i]);
    }
    if after.closings.contains(a) && a.closed_at is None {
        let j = choose|j: int| 0 <= j < after.closings.len() && after.closings[j] == a;
        lemma_handled_closing_is_done(before, entries, outcomes, at, k, j);
        assert(before.closings[j] == a);
        if exists|i: int| 0 <= i < k && outcomes[i] is Some && #[trigger] entries[i] == a {
            assert(handles(entries, outcomes, k, a));
        }
    }
    if before.closings.contains(a) && !exists|i: int|
        0 <= i < k && outcomes[i] is Some && #[trigger] entries[i] == a {
        let j = choose|j: int| 0 <= j < before.closings.len() && before.closings[j] == a;
        lemma_handled_closing_is_done(before, entries, outcomes, at, k, j);
        if handles(entries, outcomes, k, a) {
            let i = choose|i: int|
                0 <= i < k && outcomes[i] is Some && db::is_closing_of(
                    a,
                    (#[trigger] entries[i]).owner,
                    entries[i].repo,
                    entries[i].number,
                );
            assert(before.closings.contains(entries[i]));
            let m = choose|m: int| 0 <= m < before.closings.len() && before.closings[m] == entries[i];
            assert(m == j);
        }
        assert(after.closings[j] == a);
    }
}

proof fn lemma_after_pass_valid(
    store: db::StoreModel,
    entries: Seq<db::AutoCloseModel>,
    outcomes: Seq<Option<AutoCloseOutcome>>,
    times: Seq<int>,
    n: int,
)
    requires
        store.valid(),
        n <= entries.len(),
    ensures
        after_pass(store, entries, outcomes, times, n).valid(),
        after_pass(store, entries, outcomes, times, n).closings.len() == store.closings.len(),
    decreases n,
{
    if n > 0 {
        lemma_after_pass_valid(store, entries, outcomes, times, n - 1);
        let before = after_pass(store, entries, outcomes, times, n - 1);
        let entry = entries[n - 1];
        lemma_completed_is_valid(before, entry.owner, entry.repo, entry.number, times[n - 1]);
    }
}

/// Only a downvote of the author keeps a question open: one of anybody else,
/// or another reaction, does not.
pub proof fn law_only_the_author_vetoes(reactions: Seq<json::Tree>, author: Seq<char>)
    requires
        forall|i: int|
            0 <= i < reactions.len() ==> {
                ||| (#[trigger] reactions[i]).text_at("content"@) != Some("-1"@)
                ||| reactions[i].text_at2("user"@, "login"@) is None
                ||| !text::same_but_case(reactions[i].text_at2("user"@, "login"@)->0, author)
            },
    ensures
        !is_vetoed(json::Tree::Array(reactions), author),
{
}

/// A downvote of the author keeps a question open wherever it stands among the
/// reactions, whatever the others are and in whatever case the login is written.
pub proof fn law_downvote_of_the_author_counts(
    before: Seq<json::Tree>,
    reaction: json::Tree,
    after: Seq<json::Tree>,
    login: Seq<char>,
    author: Seq<char>,
)
    requires
        reaction.text_at("content"@) == Some("-1"@),
        reaction.text_at2("user"@, "login"@) == Some(login),
        text::same_but_case(login, author),
    ensures
        is_vetoed(json::Tree::Array(before + seq![reaction] + after), author),
{
    let all = before + seq![reaction] + after;
    assert(all[before.len() as int] == reaction);
    assert(is_veto(all[before.len() as int], author));
}

/// More reactions never take a veto away, and reactions veto together exactly
/// where one of them does so alone; an answer that is no list vetoes nothing.
pub proof fn law_reactions_veto_one_by_one(
    a: Seq<json::Tree>,
    b: Seq<json::Tree>,
    t: json::Tree,
    author: Seq<char>,
)
    ensures
        is_vetoed(json::Tree::Array(a + b), author) <==> is_vetoed(json::Tree::Array(a), author)
            || is_vetoed(json::Tree::Array(b), author),
        !is_vetoed(json::Tree::Array(Seq::empty()), author),
        !(t is Array) ==> !is_vetoed(t, author),
        is_vetoed(json::Tree::Array(seq![t]), author) <==> t.text_at("content"@) == Some("-1"@)
            && t.text_at2("user"@, "login"@) is Some && text::same_but_case(
            t.text_at2("user"@, "login"@)->0,
            author,
        ),
{
    let all = a + b;
    if some_veto(a, author) {
        let i = choose|i: int| 0 <= i < a.len() && is_veto(#[trigger] a[i], author);
        assert(all[i] == a[i]);
    }
    if some_veto(b, author) {
        let i = choose|i: int| 0 <= i < b.len() && is_veto(#[trigger] b[i], author);
        assert(all[a.len() + i] == b[i]);
    }
    if some_veto(all, author) {
        let i = choose|i: int| 0 <= i < all.len() && is_veto(#[trigger] all[i], author);
        if i < a.len() {
            assert(all[i] == a[i]);
        } else {
            assert(all[i] == b[i - a.len()]);
        }
    }
    assert(seq![t][0] == t);
}

/// A question is closed some hours after now, unless that time cannot be told;
/// it is scheduled exactly where the issue names its author, and with this
/// author.
pub proof fn law_closing_is_scheduled(
    owner: Seq<char>,
    repo: Seq<char>,
    number: int,
    payload: json::Tree,
    hours: int,
    now: int,
)
    ensures
        ({
            let r = closing_for(owner, repo, number, payload, hours, now);
            let issue = payload.get("issue"@);
            let author = issue->0.text_at2("user"@, "login"@);
            let named = issue is Some && author is Some && author->0.len() > 0;
            let at = now + hours * 3600000000;
            &&& r is Some <==> named
            &&& author_in(payload) is Some <==> named
            &&& named ==> author_in(payload) == author
            &&& named ==> {
                &&& r->0.owner == owner
                &&& r->0.repo == repo
                &&& r->0.number == number
                &&& r->0.author_login == author->0
                &&& r->0.closed_at is None
                &&& at <= 18446744073709551615 ==> r->0.close_at == at
                &&& at > 18446744073709551615 ==> r->0.close_at == 18446744073709551615
            }
        }),
{
}

/// One pass looks at no more than fifty closings.
pub proof fn law_passes_are_bounded(closings: Seq<db::AutoCloseModel>, now: int)
    ensures
        db::at_most(db::due(closings, now), BATCH_LIMIT as int).len() <= 50,
        db::due(closings, now).len() <= 50 ==> db::at_most(
            db::due(closings, now),
            BATCH_LIMIT as int,
        ) == db::due(closings, now),
        POLL_SECONDS == 60,
{
}

} // verus!
