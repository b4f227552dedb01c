//! The decisions of the bot's background loops: which launches changed since the
//! last fetch (moved or finished), and which reminders are due on each tick of the
//! reminder loop. Fetching, sending and sleeping happen outside.

use vstd::prelude::*;
use crate::durations::div_toward_zero;
use crate::launches::{LaunchData, LaunchStatus};
use crate::sorting::{is_stable_sort_of, stable_sort_by_key};

verus! {

/// How much later a launch has to move before a scrub notification is sent.
pub const SCRUB_MARGIN_SECS: i64 = 300;

/// `ls[i]` has Launch Library identifier `id`.
pub open spec fn has_id_at(ls: Seq<LaunchData>, i: int, id: Seq<char>) -> bool {
    0 <= i < ls.len() && ls[i].ll_id@ == id
}

/// The first launch in `ls` with identifier `id`.
pub open spec fn first_with_id(ls: Seq<LaunchData>, id: Seq<char>) -> Option<int> {
    if exists|i: int| #[trigger] has_id_at(ls, i, id) {
        Some(
            choose|i: int|
                #[trigger] has_id_at(ls, i, id) && forall|j: int| j < i ==> !#[trigger] has_id_at(ls, j, id),
        )
    } else {
        None
    }
}

/// When some launch has identifier `id`, a first one does.
pub proof fn lemma_first_with_id_exists(ls: Seq<LaunchData>, id: Seq<char>, i: int)
    requires
        has_id_at(ls, i, id),
    ensures
        exists|c: int| #[trigger] has_id_at(ls, c, id) && forall|j: int| j < c ==> !#[trigger] has_id_at(ls, j, id),
    decreases i,
{
    if exists|j: int| j < i && #[trigger] has_id_at(ls, j, id) {
        let j = choose|j: int| j < i && #[trigger] has_id_at(ls, j, id);
        lemma_first_with_id_exists(ls, id, j);
    }
}

/// A status that ends a launch.
pub open spec fn is_finished(s: LaunchStatus) -> bool {
    s == LaunchStatus::Success || s == LaunchStatus::Failure || s == LaunchStatus::PartialFailure
}

/// A status of a launch still to come.
pub open spec fn is_pending(s: LaunchStatus) -> bool {
    s == LaunchStatus::Go || s == LaunchStatus::Tbd || s == LaunchStatus::InFlight || s
        == LaunchStatus::Hold
}

/// The launches among the first `n` of `new` that moved more than the margin
/// later than they were in `old`, as (index in `old`, index in `new`).
pub open spec fn scrub_pairs(old: Seq<LaunchData>, new: Seq<LaunchData>, n: int) -> Seq<(int, int)>
    decreases n,
{
    if n <= 0 {
        Seq::<(int, int)>::empty()
    } else {
        let prev = scrub_pairs(old, new, n - 1);
        let j = n - 1;
        match first_with_id(old, new[j].ll_id@) {
            Some(k) => if new[j].net > old[k].net + SCRUB_MARGIN_SECS {
                prev.push((k, j))
            } else {
                prev
            },
            None => prev,
        }
    }
}

/// The launches among the first `n` of `new` that have finished and were still to
/// come in `old`.
pub open spec fn finished_launches(old: Seq<LaunchData>, new: Seq<LaunchData>, n: int) -> Seq<int>
    decreases n,
{
    if n <= 0 {
        Seq::<int>::empty()
    } else {
        let prev = finished_launches(old, new, n - 1);
        let j = n - 1;
        if is_finished(new[j].status) && (match first_with_id(old, new[j].ll_id@) {
            Some(k) => is_pending(old[k].status),
            None => false,
        }) {
            prev.push(j)
        } else {
            prev
        }
    }
}

/// `r` is `s` with every launch numbered by its position.
pub open spec fn renumbered(r: Seq<LaunchData>, s: Seq<LaunchData>) -> bool {
    r.len() == s.len() && forall|i: int|
        0 <= i < r.len() ==> #[trigger] r[i] == (LaunchData { id: i as i32, ..s[i] })
}

/// What a fresh list of launches changes: the new cache contents and the
/// notifications to send.
pub struct LaunchUpdate {
    /// The launches sorted by date and numbered.
    pub launches: Vec<LaunchData>,
    /// Launches that moved: (index in the old cache, index in `launches`).
    pub scrubbed: Vec<(usize, usize)>,
    /// Launches that finished (indices in `launches`).
    pub finished: Vec<usize>,
}

/// Looks for the first launch with a given identifier.
fn find_first_with_id(ls: &Vec<LaunchData>, id: &String) -> (r: Option<usize>)
    ensures
        match r {
            Some(i) => first_with_id(ls@, id@) == Some(i as int),
            None => first_with_id(ls@, id@) is None,
        },
        r matches Some(i) ==> i < ls@.len(),
{
    let mut i: usize = 0;
    while i < ls.len()
        invariant
            i <= ls@.len(),
            forall|j: int| j < i ==> !#[trigger] has_id_at(ls@, j, id@),
        decreases ls@.len() - i,
    {
        if ls[i].ll_id.eq(id) {
            proof {
                assert(has_id_at(ls@, i as int, id@));
                let c = choose|c: int|
                    #[trigger] has_id_at(ls@, c, id@) && forall|j: int| j < c ==> !#[trigger] has_id_at(ls@, j, id@);
                assert(c == i);
            }
            return Some(i);
        }
        i = i + 1;
    }
    proof {
        assert forall|j: int| !#[trigger] has_id_at(ls@, j, id@) by {
            if has_id_at(ls@, j, id@) {
                assert(j < i);
            }
        }
    }
    None
}

/// Compares a fresh list of launches with the cached one: sorts the fresh list by
/// date (keeping the order of launches at the same date), numbers it, and finds
/// the launches that moved more than five minutes later and those that finished.
/// `None` when the list is too long to number with an `i32`; the cache then stays.
pub fn plan_launch_update(old: &Vec<LaunchData>, new: Vec<LaunchData>) -> (r: Option<LaunchUpdate>)
    ensures
        match r {
            Some(u) => {
                &&& new@.len() <= 2147483648
                &&& exists|sorted: Seq<LaunchData>| is_stable_sort_of(sorted, new@) && renumbered(u.launches@, sorted)
                &&& u.scrubbed@.map_values(|p: (usize, usize)| (p.0 as int, p.1 as int)) == scrub_pairs(
                    old@,
                    u.launches@,
                    u.launches@.len() as int,
                )
                &&& u.finished@.map_values(|i: usize| i as int) == finished_launches(
                    old@,
                    u.launches@,
                    u.launches@.len() as int,
                )
            },
            None => new@.len() > 2147483648,
        },
{
    let sorted = stable_sort_by_key(new);
    let ghost sorted_view = sorted@;
    if sorted.len() > 2147483648 {
        return None;
    }
    let mut input = sorted;
    let mut launches: Vec<LaunchData> = Vec::new();
    let mut i: usize = 0;
    assert(sorted_view.skip(0) =~= sorted_view);
    while input.len() > 0
        invariant
            sorted_view.len() <= 2147483648,
            i <= sorted_view.len(),
            input@ == sorted_view.skip(i as int),
            launches@.len() == i,
            forall|k: int| 0 <= k < i ==> #[trigger] launches@[k] == (LaunchData { id: k as i32, ..sorted_view[k] }),
        decreases input@.len(),
    {
        let mut x = input.remove(0);
        assert(x == sorted_view[i as int]);
        assert(input@ =~= sorted_view.skip(i + 1));
        x.id = i as i32;
        launches.push(x);
        i = i + 1;
    }
    let n = launches.len();
    let mut scrubbed: Vec<(usize, usize)> = Vec::new();
    let mut finished: Vec<usize> = Vec::new();
    let mut j: usize = 0;
    while j < n
        invariant
            n == launches@.len(),
            j <= n,
            scrubbed@.map_values(|p: (usize, usize)| (p.0 as int, p.1 as int)) == scrub_pairs(old@, launches@, j as int),
            finished@.map_values(|i: usize| i as int) == finished_launches(old@, launches@, j as int),
        decreases n - j,
    {
        let found = find_first_with_id(old, &launches[j].ll_id);
        let ghost prev_s = scrubbed@;
        let ghost prev_f = finished@;
        match found {
            Some(k) => {
                if launches[j].net as i128 > old[k].net as i128 + 300 {
                    scrubbed.push((k, j));
                }
                let st = launches[j].status;
                let ost = old[k].status;
                let fin = st == LaunchStatus::Success || st == LaunchStatus::Failure || st
                    == LaunchStatus::PartialFailure;
                let pend = ost == LaunchStatus::Go || ost == LaunchStatus::Tbd || ost
                    == LaunchStatus::InFlight || ost == LaunchStatus::Hold;
                if fin && pend {
                    finished.push(j);
                }
            },
            None => {},
        }
        assert(scrubbed@.map_values(|p: (usize, usize)| (p.0 as int, p.1 as int)) =~= scrub_pairs(old@, launches@, j + 1));
        assert(finished@.map_values(|i: usize| i as int) =~= finished_launches(old@, launches@, j + 1));
        j = j + 1;
    }
    assert(renumbered(launches@, sorted_view));
    Some(LaunchUpdate { launches, scrubbed, finished })
}

/// Every reported move pairs a launch with its first earlier entry, and the launch
/// moved more than the margin later.
pub proof fn lemma_scrubs_moved_later(old: Seq<LaunchData>, new: Seq<LaunchData>, n: int)
    requires
        0 <= n <= new.len(),
    ensures
        forall|p: int| 0 <= p < scrub_pairs(old, new, n).len() ==> {
            let (k, j) = #[trigger] scrub_pairs(old, new, n)[p];
            &&& 0 <= k < old.len()
            &&& 0 <= j < n
            &&& old[k].ll_id@ == new[j].ll_id@
            &&& new[j].net > old[k].net + SCRUB_MARGIN_SECS
        },
    decreases n,
{
    if n > 0 {
        lemma_scrubs_moved_later(old, new, n - 1);
        let j = n - 1;
        match first_with_id(old, new[j].ll_id@) {
            Some(k) => {
                let id = new[j].ll_id@;
                let w = choose|w: int| #[trigger] has_id_at(old, w, id);
                lemma_first_with_id_exists(old, id, w);
                let c = choose|c: int|
                    #[trigger] has_id_at(old, c, id) && forall|i: int| i < c ==> !#[trigger] has_id_at(old, i, id);
                assert(has_id_at(old, c, id));
            },
            None => {},
        }
    }
}

/// Every reported outcome is of a launch that has finished and was still to come
/// at its first earlier entry.
pub proof fn lemma_outcomes_are_new(old: Seq<LaunchData>, new: Seq<LaunchData>, n: int)
    requires
        0 <= n <= new.len(),
    ensures
        forall|p: int| 0 <= p < finished_launches(old, new, n).len() ==> {
            let j = #[trigger] finished_launches(old, new, n)[p];
            &&& 0 <= j < n
            &&& is_finished(new[j].status)
            &&& first_with_id(old, new[j].ll_id@) matches Some(k) && is_pending(old[k].status)
        },
    decreases n,
{
    if n > 0 {
        lemma_outcomes_are_new(old, new, n - 1);
    }
}

/// An outcome is reported only for a launch that has ended (Success, Failure or
/// Partial Failure) and whose first cached entry was still to come (Go, TBD, In
/// Flight or Hold).
pub proof fn lemma_outcomes_need_a_pending_entry(old: Seq<LaunchData>, new: Seq<LaunchData>, n: int, p: int)
    requires
        0 <= n <= new.len(),
        0 <= p < finished_launches(old, new, n).len(),
    ensures
        ({
            let j = finished_launches(old, new, n)[p];
            let st = new[j].status;
            &&& 0 <= j < n
            &&& (st == LaunchStatus::Success || st == LaunchStatus::Failure || st == LaunchStatus::PartialFailure)
            &&& exists|k: int| 0 <= k < old.len() && old[k].ll_id@ == new[j].ll_id@ && (forall|k2: int| 0 <= k2 < k ==> old[k2].ll_id@ != new[j].ll_id@)
                && (old[k].status == LaunchStatus::Go || old[k].status == LaunchStatus::Tbd || old[k].status
                == LaunchStatus::InFlight || old[k].status == LaunchStatus::Hold)
        }),
{
    lemma_outcomes_are_new(old, new, n);
    let j = finished_launches(old, new, n)[p];
    let id = new[j].ll_id@;
    let k = first_with_id(old, id)->0;
    let w = choose|w: int| #[trigger] has_id_at(old, w, id);
    lemma_first_with_id_exists(old, id, w);
    let c = choose|c: int|
        #[trigger] has_id_at(old, c, id) && forall|i: int| i < c ==> !#[trigger] has_id_at(old, i, id);
    assert(has_id_at(old, c, id));
    assert forall|k2: int| 0 <= k2 < c implies old[k2].ll_id@ != id by {
        assert(!has_id_at(old, k2, id));
    }
}

/// Refreshing with a list of launches that already is the cache (each launch
/// listed once) reports no outcome: an outcome is told only once.
pub proof fn lemma_no_outcome_without_change(s: Seq<LaunchData>, n: int)
    requires
        0 <= n <= s.len(),
        forall|a: int, b: int| 0 <= a < b < s.len() ==> s[a].ll_id@ != s[b].ll_id@,
    ensures
        finished_launches(s, s, n).len() == 0,
    decreases n,
{
    if n > 0 {
        lemma_no_outcome_without_change(s, n - 1);
        let j = n - 1;
        let id = s[j].ll_id@;
        assert(has_id_at(s, j, id));
        lemma_first_with_id_exists(s, id, j);
        let c = choose|c: int|
            #[trigger] has_id_at(s, c, id) && forall|i: int| i < c ==> !#[trigger] has_id_at(s, i, id);
        assert(has_id_at(s, c, id));
        if c != j {
            assert(c < j || j < c);
            if j < c {
                assert(!has_id_at(s, j, id));
            }
        }
        assert(c == j);
        let st = s[j].status;
        assert(!(st == LaunchStatus::Success || st == LaunchStatus::Failure || st == LaunchStatus::PartialFailure)
            || !(st == LaunchStatus::Go || st == LaunchStatus::Tbd || st == LaunchStatus::InFlight || st
            == LaunchStatus::Hold));
    }
}

/// Every launch that has ended (Success, Failure or Partial Failure) and whose
/// first cached entry was still to come (Go, TBD, In Flight or Hold) is reported,
/// in the order of the list.
pub proof fn lemma_outcomes_all_reported(old: Seq<LaunchData>, new: Seq<LaunchData>, n: int, j: int, k: int)
    requires
        0 <= j < n <= new.len(),
        0 <= k < old.len(),
        old[k].ll_id@ == new[j].ll_id@,
        forall|k2: int| 0 <= k2 < k ==> old[k2].ll_id@ != new[j].ll_id@,
        new[j].status == LaunchStatus::Success || new[j].status == LaunchStatus::Failure || new[j].status
            == LaunchStatus::PartialFailure,
        old[k].status == LaunchStatus::Go || old[k].status == LaunchStatus::Tbd || old[k].status
            == LaunchStatus::InFlight || old[k].status == LaunchStatus::Hold,
    ensures
        finished_launches(old, new, n).contains(j),
    decreases n,
{
    let id = new[j].ll_id@;
    assert(has_id_at(old, k, id));
    lemma_first_with_id_exists(old, id, k);
    let c = choose|c: int|
        #[trigger] has_id_at(old, c, id) && forall|i: int| i < c ==> !#[trigger] has_id_at(old, i, id);
    assert(has_id_at(old, c, id));
    if c < k {
        assert(old[c].ll_id@ != id);
    }
    if k < c {
        assert(!has_id_at(old, k, id));
    }
    assert(c == k);
    if j == n - 1 {
        let f = finished_launches(old, new, n);
        assert(f.last() == j);
        assert(f[f.len() - 1] == j);
    } else {
        lemma_outcomes_all_reported(old, new, n - 1, j, k);
        let prev = finished_launches(old, new, n - 1);
        let i = choose|i: int| 0 <= i < prev.len() && prev[i] == j;
        let f = finished_launches(old, new, n);
        assert(f[i] == j);
    }
}

/// Every launch that moved more than five minutes later than its first cached
/// entry is reported as scrubbed, with that entry.
pub proof fn lemma_scrubs_all_reported(old: Seq<LaunchData>, new: Seq<LaunchData>, n: int, j: int, k: int)
    requires
        0 <= j < n <= new.len(),
        0 <= k < old.len(),
        old[k].ll_id@ == new[j].ll_id@,
        forall|k2: int| 0 <= k2 < k ==> old[k2].ll_id@ != new[j].ll_id@,
        new[j].net > old[k].net + 300,
    ensures
        scrub_pairs(old, new, n).contains((k, j)),
    decreases n,
{
    let id = new[j].ll_id@;
    assert(has_id_at(old, k, id));
    lemma_first_with_id_exists(old, id, k);
    let c = choose|c: int|
        #[trigger] has_id_at(old, c, id) && forall|i: int| i < c ==> !#[trigger] has_id_at(old, i, id);
    assert(has_id_at(old, c, id));
    if c < k {
        assert(old[c].ll_id@ != id);
    }
    if k < c {
        assert(!has_id_at(old, k, id));
    }
    assert(c == k);
    if j == n - 1 {
        let f = scrub_pairs(old, new, n);
        assert(f[f.len() - 1] == (k, j));
    } else {
        lemma_scrubs_all_reported(old, new, n - 1, j, k);
        let prev = scrub_pairs(old, new, n - 1);
        let i = choose|i: int| 0 <= i < prev.len() && prev[i] == (k, j);
        let f = scrub_pairs(old, new, n);
        assert(f[i] == (k, j));
    }
}

/// How often the reminder loop refreshes the launch list: every this many ticks.
pub const REFRESH_EVERY: i64 = 5;

/// Whole minutes from `now` until `net`, rounded toward zero.
pub open spec fn minutes_until(net: int, now: int) -> int {
    div_toward_zero(net - now, 60)
}

/// The last minute count each launch was handled at, as a map from identifiers.
pub open spec fn reminded_map(entries: Seq<(String, i64)>) -> Map<Seq<char>, int>
    decreases entries.len(),
{
    if entries.len() == 0 {
        Map::empty()
    } else {
        reminded_map(entries.drop_last()).insert(entries.last().0@, entries.last().1 as int)
    }
}

/// One pass of the reminder loop over the first `n` launches: each launch that is
/// `Go` and whose minute count differs from the one last handled for it is
/// recorded and its reminders for that minute count are looked up.
/// The result is the updated record and the (index, minutes) lookups in order.
pub open spec fn reminder_pass(
    handled: Map<Seq<char>, int>,
    launches: Seq<LaunchData>,
    now: int,
    n: int,
) -> (Map<Seq<char>, int>, Seq<(int, int)>)
    decreases n,
{
    if n <= 0 {
        (handled, Seq::<(int, int)>::empty())
    } else {
        let (m, due) = reminder_pass(handled, launches, now, n - 1);
        let l = launches[n - 1];
        let mins = minutes_until(l.net as int, now);
        if l.status != LaunchStatus::Go {
            (m, due)
        } else if m.contains_key(l.ll_id@) && m[l.ll_id@] == mins {
            (m, due)
        } else {
            (m.insert(l.ll_id@, mins), due.push((n - 1, mins)))
        }
    }
}

/// What one tick of the reminder loop does besides waiting.
pub struct ReminderPlan {
    /// Fetch a fresh launch list in the background first.
    pub refresh_launches: bool,
    /// Look up the reminders set for (launch index, minutes before launch).
    pub lookups: Vec<(usize, i64)>,
}

/// The state of the reminder loop: how many ticks ran, and the minute count each
/// launch was last handled at.
pub struct ReminderTracker {
    loop_count: i64,
    reminded: Vec<(String, i64)>,
}

impl ReminderTracker {
    /// No identifier is recorded twice.
    pub closed spec fn wf(&self) -> bool {
        forall|i: int, j: int|
            0 <= i < j < self.reminded@.len() ==> #[trigger] self.reminded@[i].0@ != #[trigger] self.reminded@[j].0@
    }

    /// How many ticks ran.
    pub closed spec fn ticks(&self) -> int {
        self.loop_count as int
    }

    /// How many ticks ran.
    pub fn loop_count(&self) -> (r: i64)
        ensures
            r == self.ticks(),
    {
        self.loop_count
    }

    /// The minute count each launch was last handled at.
    pub closed spec fn handled(&self) -> Map<Seq<char>, int> {
        reminded_map(self.reminded@)
    }

    /// A loop that has not run yet.
    pub fn new() -> (r: ReminderTracker)
        ensures
            r.wf(),
            r.ticks() == 0,
            r.handled() == Map::<Seq<char>, int>::empty(),
    {
        ReminderTracker { loop_count: 0, reminded: Vec::new() }
    }

    /// Records `mins` for identifier `id`.
    fn record(&mut self, id: &String, mins: i64)
        requires
            old(self).wf(),
        ensures
            final(self).wf(),
            final(self).handled() == old(self).handled().insert(id@, mins as int),
            final(self).ticks() == old(self).ticks(),
    {
        let ghost before = self.reminded@;
        let mut i: usize = 0;
        while i < self.reminded.len()
            invariant
                self.reminded@ == before,
                before == old(self).reminded@,
                self.wf(),
                self.loop_count == old(self).loop_count,
                i <= before.len(),
                forall|j: int| 0 <= j < i ==> (#[trigger] before[j]).0@ != id@,
            decreases before.len() - i,
        {
            if self.reminded[i].0.eq(id) {
                let key = self.reminded[i].0.clone();
                self.reminded.set(i, (key, mins));
                proof {
                    lemma_reminded_map_update(before, i as int, mins);
                    assert(before[i as int].0@ == id@);
                    assert(self.reminded@ =~= before.update(i as int, (before[i as int].0, mins)));
                    assert(self.handled() == reminded_map(before).insert(id@, mins as int));
                    assert forall|a: int, b: int| 0 <= a < b < self.reminded@.len() implies #[trigger] self.reminded@[a].0@ != #[trigger] self.reminded@[b].0@ by {
                        assert(before[a].0@ != before[b].0@);
                    }
                }
                return;
            }
            i = i + 1;
        }
        self.reminded.push((id.clone(), mins));
        proof {
            assert(self.reminded@.drop_last() =~= before);
            assert forall|a: int, b: int| 0 <= a < b < self.reminded@.len() implies #[trigger] self.reminded@[a].0@ != #[trigger] self.reminded@[b].0@ by {
                if b == before.len() {
                    assert(before[a].0@ != id@);
                } else {
                    assert(before[a].0@ != before[b].0@);
                }
            }
        }
    }

    /// The last minute count handled for identifier `id`, if any.
    fn last_handled(&self, id: &String) -> (r: Option<i64>)
        requires
            self.wf(),
        ensures
            match r {
                Some(m) => self.handled().contains_key(id@) && self.handled()[id@] == m,
                None => !self.handled().contains_key(id@),
            },
    {
        let mut i: usize = 0;
        while i < self.reminded.len()
            invariant
                i <= self.reminded@.len(),
                self.wf(),
                forall|j: int| 0 <= j < i ==> (#[trigger] self.reminded@[j]).0@ != id@,
            decreases self.reminded@.len() - i,
        {
            if self.reminded[i].0.eq(id) {
                proof {
                    lemma_reminded_map_lookup(self.reminded@, i as int);
                }
                return Some(self.reminded[i].1);
            }
            i = i + 1;
        }
        proof {
            lemma_reminded_map_absent(self.reminded@, id@);
        }
        None
    }

    /// One tick of the reminder loop at time `now`: every fifth tick (starting with
    /// the first) refreshes the launch list, and the launches that are `Go` and have
    /// reached a new minute count are recorded and have their reminders looked up.
    pub fn tick(&mut self, launches: &Vec<LaunchData>, now: i64) -> (plan: ReminderPlan)
        requires
            old(self).wf(),
            old(self).ticks() < i64::MAX,
        ensures
            final(self).wf(),
            final(self).ticks() == old(self).ticks() + 1,
            plan.refresh_launches == (old(self).ticks() % (REFRESH_EVERY as int) == 0),
            final(self).handled() == reminder_pass(old(self).handled(), launches@, now as int, launches@.len() as int).0,
            plan.lookups@.map_values(|p: (usize, i64)| (p.0 as int, p.1 as int)) == reminder_pass(
                old(self).handled(),
                launches@,
                now as int,
                launches@.len() as int,
            ).1,
    {
        let refresh = self.loop_count % 5 == 0;
        self.loop_count = self.loop_count + 1;
        let ghost start = self.handled();
        let mut lookups: Vec<(usize, i64)> = Vec::new();
        let mut i: usize = 0;
        while i < launches.len()
            invariant
                i <= launches@.len(),
                self.wf(),
                self.loop_count == old(self).loop_count + 1,
                start == old(self).handled(),
                self.handled() == reminder_pass(start, launches@, now as int, i as int).0,
                lookups@.map_values(|p: (usize, i64)| (p.0 as int, p.1 as int)) == reminder_pass(
                    start,
                    launches@,
                    now as int,
                    i as int,
                ).1,
            decreases launches@.len() - i,
        {
            let l = &launches[i];
            let ghost prev_lookups = lookups@;
            if l.status == LaunchStatus::Go {
                let diff: i128 = l.net as i128 - now as i128;
                let mins: i64 = if diff >= 0 {
                    (diff / 60) as i64
                } else {
                    -(((-diff) / 60) as i64)
                };
                assert(mins == minutes_until(l.net as int, now as int));
                let last = self.last_handled(&l.ll_id);
                let same = match last {
                    Some(m) => m == mins,
                    None => false,
                };
                if !same {
                    self.record(&l.ll_id, mins);
                    lookups.push((i, mins));
                }
            }
            assert(lookups@.map_values(|p: (usize, i64)| (p.0 as int, p.1 as int)) =~= reminder_pass(
                start,
                launches@,
                now as int,
                i + 1,
            ).1);
            i = i + 1;
        }
        ReminderPlan { refresh_launches: refresh, lookups }
    }
}

/// Looking up an identifier at a position of the record gives its value.
proof fn lemma_reminded_map_lookup(entries: Seq<(String, i64)>, i: int)
    requires
        0 <= i < entries.len(),
        forall|a: int, b: int| 0 <= a < b < entries.len() ==> #[trigger] entries[a].0@ != #[trigger] entries[b].0@,
    ensures
        reminded_map(entries).contains_key(entries[i].0@),
        reminded_map(entries)[entries[i].0@] == entries[i].1 as int,
    decreases entries.len(),
{
    if i < entries.len() - 1 {
        assert(entries.drop_last()[i] == entries[i]);
        lemma_reminded_map_lookup(entries.drop_last(), i);
        assert(entries.last().0@ != entries[i].0@);
    }
}

/// An identifier that no entry holds is not in the record.
proof fn lemma_reminded_map_absent(entries: Seq<(String, i64)>, id: Seq<char>)
    requires
        forall|j: int| 0 <= j < entries.len() ==> (#[trigger] entries[j]).0@ != id,
    ensures
        !reminded_map(entries).contains_key(id),
    decreases entries.len(),
{
    if entries.len() > 0 {
        assert forall|j: int| 0 <= j < entries.drop_last().len() implies (#[trigger] entries.drop_last()[j]).0@ != id by {
            assert(entries.drop_last()[j] == entries[j]);
        }
        lemma_reminded_map_absent(entries.drop_last(), id);
    }
}

/// Changing the value at a position changes the record at that identifier only.
proof fn lemma_reminded_map_update(entries: Seq<(String, i64)>, i: int, mins: i64)
    requires
        0 <= i < entries.len(),
        forall|a: int, b: int| 0 <= a < b < entries.len() ==> #[trigger] entries[a].0@ != #[trigger] entries[b].0@,
    ensures
        reminded_map(entries.update(i, (entries[i].0, mins))) == reminded_map(entries).insert(entries[i].0@, mins as int),
    decreases entries.len(),
{
    let updated = entries.update(i, (entries[i].0, mins));
    if i == entries.len() - 1 {
        assert(updated.drop_last() =~= entries.drop_last());
        assert(reminded_map(updated) =~= reminded_map(entries).insert(entries[i].0@, mins as int));
    } else {
        assert(updated.drop_last() =~= entries.drop_last().update(i, (entries[i].0, mins)));
        assert(entries.drop_last()[i] == entries[i]);
        lemma_reminded_map_update(entries.drop_last(), i, mins);
        assert(entries.last().0@ != entries[i].0@);
        assert(reminded_map(updated) =~= reminded_map(entries).insert(entries[i].0@, mins as int));
    }
}

/// The `Go` launches among `launches` carry distinct identifiers.
pub open spec fn go_ids_distinct(launches: Seq<LaunchData>) -> bool {
    forall|i: int, j: int|
        0 <= i < j < launches.len() && launches[i].status == LaunchStatus::Go && launches[j].status
            == LaunchStatus::Go ==> #[trigger] launches[i].ll_id@ != #[trigger] launches[j].ll_id@
}

/// After a pass over the first `n` launches, the record holds the current minute
/// count of every `Go` launch among them.
proof fn lemma_pass_records_all(handled: Map<Seq<char>, int>, launches: Seq<LaunchData>, now: int, n: int)
    requires
        0 <= n <= launches.len(),
        go_ids_distinct(launches),
    ensures
        forall|i: int|
            0 <= i < n && #[trigger] launches[i].status == LaunchStatus::Go ==> {
                let m = reminder_pass(handled, launches, now, n).0;
                &&& m.contains_key(launches[i].ll_id@)
                &&& m[launches[i].ll_id@] == minutes_until(launches[i].net as int, now)
            },
    decreases n,
{
    if n > 0 {
        lemma_pass_records_all(handled, launches, now, n - 1);
        assert forall|i: int| 0 <= i < n && #[trigger] launches[i].status == LaunchStatus::Go implies {
            let m = reminder_pass(handled, launches, now, n).0;
            &&& m.contains_key(launches[i].ll_id@)
            &&& m[launches[i].ll_id@] == minutes_until(launches[i].net as int, now)
        } by {
            if i < n - 1 && launches[n - 1].status == LaunchStatus::Go {
                assert(launches[i].ll_id@ != launches[n - 1].ll_id@);
            }
        }
    }
}

/// A pass over launches whose current minute counts are all recorded changes
/// nothing and looks nothing up.
proof fn lemma_pass_over_recorded(m: Map<Seq<char>, int>, launches: Seq<LaunchData>, now: int, n: int)
    requires
        0 <= n <= launches.len(),
        forall|i: int|
            0 <= i < n && #[trigger] launches[i].status == LaunchStatus::Go ==> m.contains_key(launches[i].ll_id@)
                && m[launches[i].ll_id@] == minutes_until(launches[i].net as int, now),
    ensures
        reminder_pass(m, launches, now, n).0 == m,
        reminder_pass(m, launches, now, n).1.len() == 0,
    decreases n,
{
    if n > 0 {
        lemma_pass_over_recorded(m, launches, now, n - 1);
    }
}

/// Two ticks at the same time over the same launches (whose `Go` launches have
/// distinct identifiers) look reminders up only once: the second pass changes
/// nothing and looks nothing up.
pub proof fn lemma_reminders_not_repeated(handled: Map<Seq<char>, int>, launches: Seq<LaunchData>, now: int)
    requires
        go_ids_distinct(launches),
    ensures
        ({
            let first = reminder_pass(handled, launches, now, launches.len() as int).0;
            &&& reminder_pass(first, launches, now, launches.len() as int).1.len() == 0
            &&& reminder_pass(first, launches, now, launches.len() as int).0 == first
        }),
{
    lemma_pass_records_all(handled, launches, now, launches.len() as int);
    let first = reminder_pass(handled, launches, now, launches.len() as int).0;
    lemma_pass_over_recorded(first, launches, now, launches.len() as int);
}

/// Every lookup of a pass is for a `Go` launch, at its current minute count.
pub proof fn lemma_lookups_are_due(handled: Map<Seq<char>, int>, launches: Seq<LaunchData>, now: int, n: int)
    requires
        0 <= n <= launches.len(),
    ensures
        forall|p: int| 0 <= p < reminder_pass(handled, launches, now, n).1.len() ==> {
            let (i, mins) = #[trigger] reminder_pass(handled, launches, now, n).1[p];
            &&& 0 <= i < n
            &&& launches[i].status == LaunchStatus::Go
            &&& mins == minutes_until(launches[i].net as int, now)
        },
    decreases n,
{
    if n > 0 {
        lemma_lookups_are_due(handled, launches, now, n - 1);
    }
}

} // verus!
