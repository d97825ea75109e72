//! Temporal correlation of ransomware alerts by parent process.

use crate::text::{contains, decimal, law_contains_means_a_part, push_decimal};
use std::collections::HashMap;
use vstd::prelude::*;
use vstd::std_specs::hash::group_hash_axioms;

verus! {

/// The width of the correlation window, in nanoseconds.
pub const STRIKE_WINDOW: u128 = 2_000_000_000;

/// The age at which an entry is forgotten, in nanoseconds.
pub const STRIKE_LIFETIME: u128 = 5_000_000_000;

/// How many strikes within one window condemn a process tree.
pub const STRIKE_LIMIT: u32 = 3;

/// The strikes of one parent process in its current window.
#[derive(Clone, Copy)]
pub struct PpidStrike {
    /// How many alerts were counted.
    pub count: u32,
    /// When the window opened, on the monotonic clock.
    pub first_strike: u128,
}

/// The time from `earlier` to `now`, zero when the clock readings are out of order.
pub open spec fn elapsed(now: u128, earlier: u128) -> int {
    if now >= earlier {
        now - earlier
    } else {
        0
    }
}

/// The entries that a prune at `now` keeps: those younger than the lifetime.
pub open spec fn pruned(strikes: Map<u32, PpidStrike>, now: u128) -> Map<u32, PpidStrike> {
    strikes.restrict(
        strikes.dom().filter(|p: u32| elapsed(now, strikes[p].first_strike) < STRIKE_LIFETIME),
    )
}

/// The entry that an alert of `ppid` at `now` is counted in.
pub open spec fn current(strikes: Map<u32, PpidStrike>, ppid: u32, now: u128) -> PpidStrike {
    if strikes.contains_key(ppid) {
        strikes[ppid]
    } else {
        PpidStrike { count: 0, first_strike: now }
    }
}

/// Whether an alert of `ppid` at `now` is the one that condemns its process tree.
pub open spec fn condemned(strikes: Map<u32, PpidStrike>, ppid: u32, now: u128) -> bool {
    let strike = current(strikes, ppid, now);
    &&& elapsed(now, strike.first_strike) <= STRIKE_WINDOW
    &&& strike.count + 1 >= STRIKE_LIMIT
}

/// The entries after an alert of `ppid` at `now` was counted.
pub open spec fn counted(strikes: Map<u32, PpidStrike>, ppid: u32, now: u128) -> Map<
    u32,
    PpidStrike,
> {
    let strike = current(strikes, ppid, now);
    if elapsed(now, strike.first_strike) > STRIKE_WINDOW {
        strikes.insert(ppid, PpidStrike { count: 1, first_strike: now })
    } else if strike.count + 1 >= STRIKE_LIMIT {
        strikes.remove(ppid)
    } else {
        strikes.insert(
            ppid,
            PpidStrike { count: (strike.count + 1) as u32, first_strike: strike.first_strike },
        )
    }
}

/// Whether every entry holds at least one strike and fewer than condemn.
pub open spec fn strikes_wf(strikes: Map<u32, PpidStrike>) -> bool {
    forall|p: u32| #[trigger]
        strikes.contains_key(p) ==> 1 <= strikes[p].count < STRIKE_LIMIT
}

/// The open windows, by parent process.
pub struct StrikeTracker {
    strikes: HashMap<u32, PpidStrike>,
}

impl View for StrikeTracker {
    type V = Map<u32, PpidStrike>;

    closed spec fn view(&self) -> Map<u32, PpidStrike> {
        self.strikes@
    }
}

fn time_between(now: u128, earlier: u128) -> (r: u128)
    ensures
        r == elapsed(now, earlier),
{
    if now >= earlier {
        now - earlier
    } else {
        0
    }
}

impl StrikeTracker {
    /// The invariant of the tracker.
    pub open spec fn wf(&self) -> bool {
        strikes_wf(self@)
    }

    /// A tracker without any open window.
    pub fn new() -> (r: Self)
        ensures
            r.wf(),
            r@ == Map::<u32, PpidStrike>::empty(),
    {
        StrikeTracker { strikes: HashMap::new() }
    }

    /// Forgets everything; used when the state can no longer be trusted.
    pub fn clear(&mut self)
        ensures
            final(self).wf(),
            final(self)@ == Map::<u32, PpidStrike>::empty(),
    {
        self.strikes.clear();
    }

    /// Forgets the entries that are at least `STRIKE_LIFETIME` old.
    pub fn prune(&mut self, now: u128)
        requires
            old(self).wf(),
        ensures
            final(self).wf(),
            final(self)@ == pruned(old(self)@, now),
    {
        broadcast use group_hash_axioms;

        let ghost before = self.strikes@;
        let mut known: Vec<u32> = Vec::new();
        for p in it: self.strikes.keys()
            invariant
                it.seq().unref().to_set() == before.dom(),
                known@ == it.seq().unref().take(it.index() as int),
                it.index() == it.seq().len() ==> known@ =~= it.seq().unref(),
        {
            known.push(*p);
        }
        assert(known@.to_set() == before.dom());
        let mut i: usize = 0;
        while i < known.len()
            invariant
                i <= known@.len(),
                known@.to_set() == before.dom(),
                forall|p: u32| #[trigger]
                    self.strikes@.contains_key(p) ==> before.contains_key(p) && before[p]
                        == self.strikes@[p],
                forall|p: u32| #[trigger]
                    before.contains_key(p) && elapsed(now, before[p].first_strike) < STRIKE_LIFETIME
                        ==> self.strikes@.contains_key(p),
                forall|k: int|
                    0 <= k < i && elapsed(now, before[#[trigger] known@[k]].first_strike)
                        >= STRIKE_LIFETIME ==> !self.strikes@.contains_key(known@[k]),
            decreases known@.len() - i,
        {
            let p = known[i];
            assert(known@.to_set().contains(p));
            if let Some(strike) = self.strikes.get(&p) {
                if time_between(now, strike.first_strike) >= STRIKE_LIFETIME {
                    self.strikes.remove(&p);
                }
            }
            i = i + 1;
        }
        assert forall|p: u32| self.strikes@.contains_key(p) implies elapsed(
            now,
            before[p].first_strike,
        ) < STRIKE_LIFETIME by {
            assert(known@.to_set().contains(p));
            let k = choose|k: int| 0 <= k < known@.len() && known@[k] == p;
        }
        assert(self.strikes@ =~= pruned(before, now));
    }

    /// Counts one alert of `ppid`; the result tells whether its process tree is condemned.
    pub fn record(&mut self, ppid: u32, now: u128) -> (r: bool)
        requires
            old(self).wf(),
        ensures
            final(self).wf(),
            final(self)@ == counted(old(self)@, ppid, now),
            r == condemned(old(self)@, ppid, now),
    {
        broadcast use group_hash_axioms;

        let strike = match self.strikes.get(&ppid) {
            Some(s) => *s,
            None => PpidStrike { count: 0, first_strike: now },
        };
        assert(strike == current(old(self)@, ppid, now));
        if time_between(now, strike.first_strike) > STRIKE_WINDOW {
            self.strikes.insert(ppid, PpidStrike { count: 1, first_strike: now });
            false
        } else if strike.count + 1 >= STRIKE_LIMIT {
            self.strikes.remove(&ppid);
            true
        } else {
            self.strikes.insert(
                ppid,
                PpidStrike { count: strike.count + 1, first_strike: strike.first_strike },
            );
            false
        }
    }

    /// Handles one alert: prunes at `pruned_at`, then counts it at `now`.
    pub fn on_alert(&mut self, ppid: u32, pruned_at: u128, now: u128) -> (r: bool)
        requires
            old(self).wf(),
        ensures
            final(self).wf(),
            final(self)@ == counted(pruned(old(self)@, pruned_at), ppid, now),
            r == condemned(pruned(old(self)@, pruned_at), ppid, now),
    {
        self.prune(pruned_at);
        self.record(ppid, now)
    }
}

/// One alert as the tracker sees it: whose it is, and the two clock readings of its handling.
pub struct AlertAt {
    /// The parent process.
    pub ppid: u32,
    /// The clock when stale entries were pruned.
    pub pruned_at: u128,
    /// The clock when the alert was counted.
    pub now: u128,
}

/// The entries after a history of alerts, from an empty tracker.
pub open spec fn after(history: Seq<AlertAt>) -> Map<u32, PpidStrike>
    decreases history.len(),
{
    if history.len() == 0 {
        Map::empty()
    } else {
        let alert = history.last();
        counted(pruned(after(history.drop_last()), alert.pruned_at), alert.ppid, alert.now)
    }
}

/// Whether alert `k` of a history condemns its process tree.
pub open spec fn condemns(history: Seq<AlertAt>, k: int) -> bool {
    let alert = history[k];
    condemned(pruned(after(history.take(k)), alert.pruned_at), alert.ppid, alert.now)
}

/// Whether the clock readings of a history never go backwards.
pub open spec fn clock_ordered(history: Seq<AlertAt>) -> bool {
    &&& forall|i: int| 0 <= i < history.len() ==> history[i].pruned_at <= (#[trigger] history[i]).now
    &&& forall|i: int, j: int|
        0 <= i < j < history.len() ==> (#[trigger] history[i]).now <= (#[trigger] history[j]).pruned_at
}

/// The alerts that an entry stands for: as many of the same parent as it counts, the earliest
/// of them when its window opened.
spec fn witnessed(history: Seq<AlertAt>, p: u32, strike: PpidStrike) -> bool {
    &&& strike.count == 1 ==> exists|i: int|
        0 <= i < history.len() && (#[trigger] history[i]).ppid == p && history[i].now
            == strike.first_strike
    &&& strike.count == 2 ==> exists|i: int, j: int|
        0 <= i < j < history.len() && (#[trigger] history[i]).ppid == p && history[i].now
            == strike.first_strike && (#[trigger] history[j]).ppid == p
}

proof fn lemma_entries_witnessed(history: Seq<AlertAt>)
    ensures
        strikes_wf(after(history)),
        forall|p: u32| #[trigger]
            after(history).contains_key(p) ==> witnessed(history, p, after(history)[p]),
    decreases history.len(),
{
    if history.len() > 0 {
        let earlier = history.drop_last();
        let alert = history.last();
        lemma_entries_witnessed(earlier);
        let base = pruned(after(earlier), alert.pruned_at);
        assert forall|p: u32| #[trigger] after(history).contains_key(p) implies witnessed(
            history,
            p,
            after(history)[p],
        ) by {
            if p != alert.ppid {
                assert(after(earlier).contains_key(p));
                lemma_witness_extends(earlier, alert, p, after(earlier)[p]);
                assert(earlier.push(alert) =~= history);
            } else {
                let n = history.len() - 1;
                assert(history[n] == alert);
                if base.contains_key(p) {
                    assert(after(earlier).contains_key(p));
                    if after(history)[p].count == 2 {
                        let i = choose|i: int|
                            0 <= i < earlier.len() && (#[trigger] earlier[i]).ppid == p
                                && earlier[i].now == after(earlier)[p].first_strike;
                        assert(history[i] == earlier[i]);
                        assert(0 <= i < n && history[i].ppid == p && history[n].ppid == p);
                    }
                }
            }
        }
    }
}

proof fn lemma_witness_extends(history: Seq<AlertAt>, alert: AlertAt, p: u32, strike: PpidStrike)
    requires
        witnessed(history, p, strike),
    ensures
        witnessed(history.push(alert), p, strike),
{
    let longer = history.push(alert);
    if strike.count == 1 {
        let i = choose|i: int|
            0 <= i < history.len() && (#[trigger] history[i]).ppid == p && history[i].now
                == strike.first_strike;
        assert(longer[i] == history[i]);
    }
    if strike.count == 2 {
        let (i, j) = choose|i: int, j: int|
            0 <= i < j < history.len() && (#[trigger] history[i]).ppid == p && history[i].now
                == strike.first_strike && (#[trigger] history[j]).ppid == p;
        assert(longer[i] == history[i]);
        assert(longer[j] == history[j]);
    }
}

/// A process tree is condemned only after three alerts of the same parent, the first of them
/// at most one window before the last.
pub proof fn law_condemnation_needs_three_strikes(history: Seq<AlertAt>, k: int)
    requires
        0 <= k < history.len(),
        condemns(history, k),
    ensures
        exists|i: int, j: int|
            0 <= i < j < k && (#[trigger] history[i]).ppid == history[k].ppid && (
            #[trigger] history[j]).ppid == history[k].ppid && elapsed(
                history[k].now,
                history[i].now,
            ) <= STRIKE_WINDOW,
{
    let earlier = history.take(k);
    let alert = history[k];
    lemma_entries_witnessed(earlier);
    let base = pruned(after(earlier), alert.pruned_at);
    assert(base.contains_key(alert.ppid));
    assert(after(earlier).contains_key(alert.ppid));
    let (i, j) = choose|i: int, j: int|
        0 <= i < j < earlier.len() && (#[trigger] earlier[i]).ppid == alert.ppid && earlier[i].now
            == after(earlier)[alert.ppid].first_strike && (#[trigger] earlier[j]).ppid
            == alert.ppid;
    assert(history[i] == earlier[i]);
    assert(history[j] == earlier[j]);
}

/// An entry outlives the alerts of other parents while it is younger than the lifetime.
proof fn lemma_entry_persists(history: Seq<AlertAt>, a: int, b: int, p: u32)
    requires
        0 <= a <= b <= history.len(),
        after(history.take(a)).contains_key(p),
        forall|i: int| a <= i < b ==> (#[trigger] history[i]).ppid != p,
        forall|i: int|
            a <= i < b ==> elapsed(
                (#[trigger] history[i]).pruned_at,
                after(history.take(a))[p].first_strike,
            ) < STRIKE_LIFETIME,
    ensures
        after(history.take(b)).contains_key(p),
        after(history.take(b))[p] == after(history.take(a))[p],
    decreases b - a,
{
    if a < b {
        lemma_entry_persists(history, a, b - 1, p);
        assert(history.take(b).drop_last() =~= history.take(b - 1));
        assert(history.take(b).last() == history[b - 1]);
    }
}

/// Three consecutive alerts of one parent within one window condemn its process tree, and its
/// entry is flushed, whatever other parents do meanwhile.
pub proof fn law_three_strikes_condemn(history: Seq<AlertAt>, i: int, j: int, k: int)
    requires
        clock_ordered(history),
        0 <= i < j < k < history.len(),
        history[j].ppid == history[i].ppid,
        history[k].ppid == history[i].ppid,
        forall|m: int| i < m < k && m != j ==> (#[trigger] history[m]).ppid != history[i].ppid,
        !pruned(after(history.take(i)), history[i].pruned_at).contains_key(history[i].ppid),
        elapsed(history[k].now, history[i].now) <= STRIKE_WINDOW,
    ensures
        !condemns(history, i),
        !condemns(history, j),
        condemns(history, k),
        !after(history.take(k + 1)).contains_key(history[i].ppid),
{
    let p = history[i].ppid;
    assert(history.take(i + 1).drop_last() =~= history.take(i));
    assert(history.take(i + 1).last() == history[i]);
    assert(after(history.take(i + 1))[p] == (PpidStrike {
        count: 1,
        first_strike: history[i].now,
    }));
    assert(history[j].now <= history[k].pruned_at);
    lemma_entry_persists(history, i + 1, j, p);
    assert(history.take(j + 1).drop_last() =~= history.take(j));
    assert(history.take(j + 1).last() == history[j]);
    assert(history[i].now <= history[j].pruned_at);
    assert(after(history.take(j + 1))[p] == (PpidStrike {
        count: 2,
        first_strike: history[i].now,
    }));
    assert forall|m: int| j + 1 <= m < k implies elapsed(
        (#[trigger] history[m]).pruned_at,
        history[i].now,
    ) < STRIKE_LIFETIME by {
        assert(history[m].now <= history[k].pruned_at);
    }
    lemma_entry_persists(history, j + 1, k, p);
    assert(history.take(k + 1).drop_last() =~= history.take(k));
    assert(history.take(k + 1).last() == history[k]);
    assert(history[i].now <= history[k].pruned_at);
}

/// Once a window is over, the next alert of its parent opens a new one and condemns nothing.
pub proof fn law_expired_window_restarts(strikes: Map<u32, PpidStrike>, ppid: u32, now: u128)
    requires
        strikes.contains_key(ppid),
        elapsed(now, strikes[ppid].first_strike) > STRIKE_WINDOW,
    ensures
        !condemned(strikes, ppid, now),
        counted(strikes, ppid, now)[ppid] == (PpidStrike { count: 1, first_strike: now }),
{
}

/// An alert of one parent leaves the entries of all others as they were.
pub proof fn law_parents_are_independent(
    strikes: Map<u32, PpidStrike>,
    ppid: u32,
    other: u32,
    now: u128,
)
    requires
        other != ppid,
    ensures
        counted(strikes, ppid, now).contains_key(other) == strikes.contains_key(other),
        strikes.contains_key(other) ==> counted(strikes, ppid, now)[other] == strikes[other],
{
}

/// After a prune no entry is as old as the lifetime, so nothing is remembered for good.
pub proof fn law_prune_forgets(strikes: Map<u32, PpidStrike>, now: u128, p: u32)
    ensures
        pruned(strikes, now).contains_key(p) <==> strikes.contains_key(p) && elapsed(
            now,
            strikes[p].first_strike,
        ) < STRIKE_LIFETIME,
        pruned(strikes, now).contains_key(p) ==> pruned(strikes, now)[p] == strikes[p],
{
}

/// The line for a condemned tree, in the model.
pub open spec fn condemnation_text(ppid: u32) -> Seq<char> {
    "Bouclier Bleu [FATAL]: PPID "@ + decimal(ppid as nat)
        + " crossed heuristic threshold (3 strikes/2s). Executing tree eradication."@
}

/// The line that announces the eradication of a process tree.
pub fn condemnation_notice(ppid: u32) -> (r: String)
    ensures
        r@ == condemnation_text(ppid),
{
    let mut out = "Bouclier Bleu [FATAL]: PPID ".to_owned();
    push_decimal(&mut out, ppid as u64);
    out.append(" crossed heuristic threshold (3 strikes/2s). Executing tree eradication.");
    out
}

/// What one alert does, by the clock: the first alert of a parent opens a window, a second one within
/// two seconds of the first is counted in it, and a third one within two seconds of the first
/// condemns the process tree and closes the window. An alert later than that opens a new window.
pub proof fn law_strikes_are_counted_for_two_seconds(
    strikes: Map<u32, PpidStrike>,
    ppid: u32,
    now: u128,
)
    ensures
        !strikes.contains_key(ppid) ==> !condemned(strikes, ppid, now) && counted(strikes, ppid, now)
            == strikes.insert(ppid, PpidStrike { count: 1, first_strike: now }),
        strikes.contains_key(ppid) && now > strikes[ppid].first_strike + 2_000_000_000 ==> !condemned(
            strikes,
            ppid,
            now,
        ) && counted(strikes, ppid, now) == strikes.insert(
            ppid,
            PpidStrike { count: 1, first_strike: now },
        ),
        strikes.contains_key(ppid) && now <= strikes[ppid].first_strike + 2_000_000_000
            && strikes[ppid].count == 1 ==> !condemned(strikes, ppid, now) && counted(
            strikes,
            ppid,
            now,
        ) == strikes.insert(
            ppid,
            PpidStrike { count: 2, first_strike: strikes[ppid].first_strike },
        ),
        strikes.contains_key(ppid) && now <= strikes[ppid].first_strike + 2_000_000_000
            && strikes[ppid].count == 2 ==> condemned(strikes, ppid, now) && counted(
            strikes,
            ppid,
            now,
        ) == strikes.remove(ppid),
{
}

/// A prune keeps what is younger than five seconds, unchanged, and forgets the rest.
pub proof fn law_entries_live_for_five_seconds(strikes: Map<u32, PpidStrike>, now: u128, p: u32)
    ensures
        pruned(strikes, now).contains_key(p) <==> strikes.contains_key(p) && now
            < strikes[p].first_strike + 5_000_000_000,
        pruned(strikes, now).contains_key(p) ==> pruned(strikes, now)[p] == strikes[p],
{
}

/// Whatever came before, three alerts of one parent in a row, no more than two seconds from the first
/// to the last, of a parent without an open window, condemn its process tree with the third and not
/// before.
pub proof fn law_three_alerts_in_two_seconds_condemn(
    strikes: Map<u32, PpidStrike>,
    ppid: u32,
    first: u128,
    second: u128,
    third: u128,
)
    requires
        !strikes.contains_key(ppid),
        first <= second <= third,
        third - first <= 2_000_000_000,
    ensures
        ({
            let once = counted(pruned(strikes, first), ppid, first);
            let twice = counted(pruned(once, second), ppid, second);
            let done = counted(pruned(twice, third), ppid, third);
            &&& !condemned(pruned(strikes, first), ppid, first)
            &&& !condemned(pruned(once, second), ppid, second)
            &&& condemned(pruned(twice, third), ppid, third)
            &&& !done.contains_key(ppid)
        }),
{
}

/// Two alerts are never enough, and neither is a third one that comes more than two seconds after the
/// first.
pub proof fn law_slow_alerts_do_not_condemn(
    strikes: Map<u32, PpidStrike>,
    ppid: u32,
    first: u128,
    second: u128,
    third: u128,
)
    requires
        !strikes.contains_key(ppid),
        first <= second <= third,
        third - first > 2_000_000_000,
    ensures
        ({
            let once = counted(pruned(strikes, first), ppid, first);
            let twice = counted(pruned(once, second), ppid, second);
            &&& !condemned(pruned(strikes, first), ppid, first)
            &&& !condemned(pruned(once, second), ppid, second)
            &&& !condemned(pruned(twice, third), ppid, third)
        }),
{
}

/// The line for a condemned tree names its parent process.
pub proof fn law_condemnation_names_the_parent(ppid: u32)
    ensures
        contains(condemnation_text(ppid), decimal(ppid as nat)),
{
    law_contains_means_a_part(condemnation_text(ppid), decimal(ppid as nat));
}

} // verus!
