//! Population of a kernel watchlist: which entries are resolved and written, and when the
//! set-up fails.

use crate::fs_utils::{
    capacity_for, coverage, covered, dynamic_capacity, files_in, law_capacity_suffices,
    law_coverage_by_type_depth_and_names, law_coverage_is_exact, law_watchlist_capacity_agrees,
    select_entries, EntryType, FoundType, HiddenRule, ScanEntry, MIN_WATCHLIST_CAPACITY,
};
use crate::text::{contains, law_contains_means_a_part};
use vstd::prelude::*;

verus! {

/// What a watchlist entry is set to in the kernel map.
pub const PROTECTED: [u8; 1] = [1];

/// What happened since the last action.
pub enum SetupEvent {
    /// Nothing yet.
    Begin,
    /// The hardware key of the entry was resolved, or could not be.
    Resolved(Option<[u8; 16]>),
    /// The kernel map took the key.
    Updated,
    /// The kernel map refused the key.
    Refused,
}

/// What to do next.
pub enum SetupAction {
    /// Resolve the hardware key of the entry at this position.
    Resolve(usize),
    /// Write this key to the kernel map.
    Update([u8; 16]),
    /// The watchlist is complete.
    Finish,
    /// The kernel map is exhausted: fail rather than leave the entry unprotected.
    Abort,
    /// Nothing at all could be protected where something has to be.
    Empty,
}

/// What a set-up waits for.
#[derive(Clone, Copy)]
pub enum Awaited {
    /// To begin.
    Start,
    /// The hardware key of the next entry.
    Key,
    /// What the kernel map makes of this key.
    Write([u8; 16]),
    /// Nothing: it is over.
    Nothing,
}

/// The progress of one set-up.
pub struct WatchlistSetup {
    /// The positions of the entries to protect, in order.
    pub targets: Vec<usize>,
    /// How many of them are settled.
    pub settled: usize,
    /// How many of them are protected.
    pub protected: usize,
    /// Whether a refused key fails the set-up; otherwise it is passed over.
    pub strict: bool,
    /// Whether a watchlist without any protected entry fails the set-up.
    pub needs_one: bool,
    /// What it waits for.
    pub awaited: Awaited,
}

/// The model of a set-up.
#[verifier::ext_equal]
pub struct SetupView {
    /// The positions of the entries to protect.
    pub targets: Seq<usize>,
    /// How many of them are settled.
    pub settled: nat,
    /// How many of them are protected.
    pub protected: nat,
    /// Whether a refused key fails the set-up.
    pub strict: bool,
    /// Whether an empty watchlist fails the set-up.
    pub needs_one: bool,
    /// What it waits for.
    pub awaited: Awaited,
}

impl View for WatchlistSetup {
    type V = SetupView;

    open spec fn view(&self) -> SetupView {
        SetupView {
            targets: self.targets@,
            settled: self.settled as nat,
            protected: self.protected as nat,
            strict: self.strict,
            needs_one: self.needs_one,
            awaited: self.awaited,
        }
    }
}

/// What is awaited once an action was given.
pub open spec fn awaited_after(action: SetupAction) -> Awaited {
    match action {
        SetupAction::Resolve(_) => Awaited::Key,
        SetupAction::Update(key) => Awaited::Write(key),
        _ => Awaited::Nothing,
    }
}

/// Whether an event is what an action leads to.
pub open spec fn answers(event: SetupEvent, action: SetupAction) -> bool {
    match action {
        SetupAction::Resolve(_) => event is Resolved,
        SetupAction::Update(_) => event is Updated || event is Refused,
        _ => false,
    }
}

impl SetupView {
    /// No more entries are settled than there are, nor more protected than settled; a key is only
    /// awaited or written while an entry is in hand.
    pub open spec fn wf(self) -> bool {
        &&& self.protected <= self.settled <= self.targets.len()
        &&& self.awaited is Key || self.awaited is Write ==> self.settled < self.targets.len()
    }

    /// A set-up that has not begun.
    pub open spec fn fresh(targets: Seq<usize>, strict: bool, needs_one: bool) -> SetupView {
        SetupView {
            targets,
            settled: 0,
            protected: 0,
            strict,
            needs_one,
            awaited: Awaited::Start,
        }
    }

    /// One more entry settled.
    pub open spec fn settle(self, protects: bool) -> SetupView {
        SetupView {
            settled: self.settled + 1,
            protected: self.protected + if protects { 1nat } else { 0nat },
            ..self
        }
    }

    /// The action that starts on the next entry, or ends the set-up.
    pub open spec fn proceed(self) -> SetupAction {
        if self.settled < self.targets.len() {
            SetupAction::Resolve(self.targets[self.settled as int])
        } else if self.needs_one && self.protected == 0 {
            SetupAction::Empty
        } else {
            SetupAction::Finish
        }
    }

    /// Whether an event can occur: what the set-up waits for.
    pub open spec fn expects(self, event: SetupEvent) -> bool {
        match event {
            SetupEvent::Begin => self.awaited is Start,
            SetupEvent::Resolved(_) => self.awaited is Key,
            SetupEvent::Updated | SetupEvent::Refused => self.awaited is Write,
        }
    }

    /// The entries settled by an event.
    pub open spec fn progress(self, event: SetupEvent) -> SetupView {
        match event {
            SetupEvent::Begin => self,
            SetupEvent::Resolved(Some(_)) => self,
            SetupEvent::Resolved(None) => self.settle(false),
            SetupEvent::Updated => self.settle(true),
            SetupEvent::Refused => if self.strict {
                self
            } else {
                self.settle(false)
            },
        }
    }

    /// The action that answers an event.
    pub open spec fn action(self, event: SetupEvent) -> SetupAction {
        match event {
            SetupEvent::Resolved(Some(key)) => SetupAction::Update(key),
            SetupEvent::Refused if self.strict => SetupAction::Abort,
            _ => self.progress(event).proceed(),
        }
    }

    /// The state after an event.
    pub open spec fn next(self, event: SetupEvent) -> SetupView {
        SetupView { awaited: awaited_after(self.action(event)), ..self.progress(event) }
    }
}

impl WatchlistSetup {
    /// The invariant of a set-up.
    pub open spec fn wf(&self) -> bool {
        self@.wf()
    }

    /// A set-up over the given positions.
    pub fn new(targets: Vec<usize>, strict: bool, needs_one: bool) -> (r: Self)
        ensures
            r.wf(),
            r@ == SetupView::fresh(targets@, strict, needs_one),
    {
        WatchlistSetup {
            targets,
            settled: 0,
            protected: 0,
            strict,
            needs_one,
            awaited: Awaited::Start,
        }
    }

    /// Starts on the next entry, or ends the set-up.
    fn proceed(&mut self) -> (r: SetupAction)
        requires
            old(self)@.protected <= old(self)@.settled <= old(self)@.targets.len(),
        ensures
            final(self).wf(),
            r == old(self)@.proceed(),
            final(self)@ == (SetupView { awaited: awaited_after(r), ..old(self)@ }),
    {
        if self.settled < self.targets.len() {
            self.awaited = Awaited::Key;
            SetupAction::Resolve(self.targets[self.settled])
        } else {
            self.awaited = Awaited::Nothing;
            if self.needs_one && self.protected == 0 {
                SetupAction::Empty
            } else {
                SetupAction::Finish
            }
        }
    }

    /// Takes in what happened and tells what to do next.
    pub fn step(&mut self, event: SetupEvent) -> (r: SetupAction)
        requires
            old(self).wf(),
            old(self)@.expects(event),
        ensures
            final(self).wf(),
            final(self)@ == old(self)@.next(event),
            r == old(self)@.action(event),
    {
        let total: usize = self.targets.len();
        assert(!(event is Begin) ==> self.settled < total);
        match event {
            SetupEvent::Begin => self.proceed(),
            SetupEvent::Resolved(Some(key)) => {
                self.awaited = Awaited::Write(key);
                SetupAction::Update(key)
            },
            SetupEvent::Resolved(None) => {
                self.settled = self.settled + 1;
                self.proceed()
            },
            SetupEvent::Updated => {
                self.settled = self.settled + 1;
                self.protected = self.protected + 1;
                self.proceed()
            },
            SetupEvent::Refused => {
                if self.strict {
                    self.awaited = Awaited::Nothing;
                    SetupAction::Abort
                } else {
                    self.settled = self.settled + 1;
                    self.proceed()
                }
            },
        }
    }
}

/// The set-up of a watchlist over scanned paths, in the model.
pub open spec fn paths_setup(scan: Seq<ScanEntry>, entry_type: EntryType, rule: HiddenRule) -> SetupView {
    SetupView::fresh(coverage(scan, entry_type, rule, scan.len()), true, false)
}

/// The set-up of a watchlist of opted-in binaries, in the model.
pub open spec fn xattr_setup(scan: Seq<ScanEntry>) -> SetupView {
    SetupView::fresh(
        coverage(
            scan,
            EntryType::File,
            HiddenRule { ignore_hidden: false, allow_hidden: &[] },
            scan.len(),
        ),
        true,
        false,
    )
}

/// The set-up of a watchlist of fixed files, in the model.
pub open spec fn files_setup(count: nat, needs_one: bool) -> SetupView {
    SetupView::fresh(positions(count), false, needs_one)
}

/// The set-up of a watchlist over scanned paths: every covered entry, and no refusal tolerated.
pub fn populate_map_from_paths(
    scan: &[ScanEntry],
    entry_type: EntryType,
    ignore_hidden: bool,
    allow_hidden: &[&str],
) -> (r: WatchlistSetup)
    ensures
        r.wf(),
        r@ == paths_setup(scan@, entry_type, (HiddenRule { ignore_hidden, allow_hidden })),
        r@ == SetupView::fresh(
            coverage(
                scan@,
                entry_type,
                (HiddenRule { ignore_hidden, allow_hidden }),
                scan@.len(),
            ),
            true,
            false,
        ),
{
    let rule = HiddenRule { ignore_hidden, allow_hidden };
    WatchlistSetup::new(select_entries(scan, entry_type, &rule), true, false)
}

/// The set-up of a watchlist of opted-in binaries: every scanned file is a candidate, and no
/// refusal is tolerated.
pub fn populate_map_from_xattr(scan: &[ScanEntry]) -> (r: WatchlistSetup)
    ensures
        r.wf(),
        r@ == xattr_setup(scan@),
        r@ == SetupView::fresh(
            coverage(
                scan@,
                EntryType::File,
                (HiddenRule { ignore_hidden: false, allow_hidden: &[] }),
                scan@.len(),
            ),
            true,
            false,
        ),
{
    let rule = HiddenRule { ignore_hidden: false, allow_hidden: &[] };
    WatchlistSetup::new(select_entries(scan, EntryType::File, &rule), true, false)
}

/// The positions of a list of this length.
pub open spec fn positions(n: nat) -> Seq<usize> {
    Seq::new(n, |i: int| i as usize)
}

/// The set-up of a watchlist of fixed files: every file is a candidate, and one that the map refuses
/// is passed over.
pub fn populate_map_from_files(paths: &[&str], needs_one: bool) -> (r: WatchlistSetup)
    ensures
        r.wf(),
        r@ == files_setup(paths@.len(), needs_one),
        r@ == SetupView::fresh(positions(paths@.len()), false, needs_one),
{
    let n: usize = paths.len();
    let mut targets: Vec<usize> = Vec::new();
    let mut i: usize = 0;
    while i < n
        invariant
            i <= n,
            targets@ == positions(i as nat),
        decreases n - i,
    {
        targets.push(i);
        i = i + 1;
        assert(targets@ =~= positions(i as nat));
    }
    WatchlistSetup::new(targets, false, needs_one)
}

/// Whether an extended attribute opts a binary in: it is present and holds the digit one.
pub open spec fn opts_in(attribute: Option<Seq<u8>>) -> bool {
    attribute == Some(seq![49u8])
}

/// The key to watch for a candidate: its own, where its attribute opts it in.
pub fn opted_in_key(attribute: &Option<Vec<u8>>, key: Option<[u8; 16]>) -> (r: Option<[u8; 16]>)
    ensures
        r == if opts_in(
            match attribute {
                Some(v) => Some(v@),
                None => None,
            },
        ) {
            key
        } else {
            None
        },
{
    match attribute {
        Some(value) => {
            if value.len() == 1 && value[0] == 49 {
                assert(value@ =~= seq![49u8]);
                key
            } else {
                assert(value@ != seq![49u8]);
                None
            }
        },
        None => None,
    }
}

/// The failure of a watchlist over paths, in the model.
pub open spec fn path_failure_text(path: Seq<char>, error: Seq<char>) -> Seq<char> {
    "CRITICAL: Map update failed for "@ + path + ": "@ + error
}

/// The failure when the map refuses the entry at `path`.
pub fn path_failure(path: &str, error: &str) -> (r: String)
    ensures
        r@ == path_failure_text(path@, error@),
{
    let mut out = "CRITICAL: Map update failed for ".to_owned();
    out.append(path);
    out.append(": ");
    out.append(error);
    out
}

/// The failure of a watchlist of opted-in binaries, in the model.
pub open spec fn xattr_failure_text(map_name: Seq<char>, error: Seq<char>) -> Seq<char> {
    "CRITICAL: "@ + map_name + " map failed to update: "@ + error
}

/// The failure when the map of opted-in binaries refuses an entry.
pub fn xattr_failure(map_name: &str, error: &str) -> (r: String)
    ensures
        r@ == xattr_failure_text(map_name@, error@),
{
    let mut out = "CRITICAL: ".to_owned();
    out.append(map_name);
    out.append(" map failed to update: ");
    out.append(error);
    out
}

/// Whether a sequence of events drives a set-up without ever coming unexpected.
pub open spec fn plays(setup: SetupView, events: Seq<SetupEvent>) -> bool
    decreases events.len(),
{
    events.len() == 0 || {
        &&& plays(setup, events.drop_last())
        &&& played(setup, events.drop_last()).expects(events.last())
    }
}

/// The state after a sequence of events.
pub open spec fn played(setup: SetupView, events: Seq<SetupEvent>) -> SetupView
    decreases events.len(),
{
    if events.len() == 0 {
        setup
    } else {
        played(setup, events.drop_last()).next(events.last())
    }
}

/// The action that the last of a sequence of events leads to.
pub open spec fn last_action(setup: SetupView, events: Seq<SetupEvent>) -> SetupAction
    recommends
        events.len() > 0,
{
    played(setup, events.drop_last()).action(events.last())
}

/// What came of resolving the targets so far, in their order.
pub open spec fn resolved(events: Seq<SetupEvent>) -> Seq<Option<[u8; 16]>>
    decreases events.len(),
{
    if events.len() == 0 {
        Seq::empty()
    } else {
        match events.last() {
            SetupEvent::Resolved(key) => resolved(events.drop_last()).push(key),
            _ => resolved(events.drop_last()),
        }
    }
}

/// The targets that were protected, each with the key that the kernel map took for it.
pub open spec fn written(setup: SetupView, events: Seq<SetupEvent>) -> Seq<(usize, [u8; 16])>
    decreases events.len(),
{
    if events.len() == 0 {
        Seq::empty()
    } else {
        let before = written(setup, events.drop_last());
        let state = played(setup, events.drop_last());
        match (events.last(), state.awaited) {
            (SetupEvent::Updated, Awaited::Write(key)) => before.push(
                (state.targets[state.settled as int], key),
            ),
            _ => before,
        }
    }
}

/// What an empty kernel map holds after a sequence of events.
pub open spec fn contents(setup: SetupView, events: Seq<SetupEvent>) -> Map<Seq<u8>, Seq<u8>>
    decreases events.len(),
{
    if events.len() == 0 {
        Map::empty()
    } else {
        let before = contents(setup, events.drop_last());
        match (events.last(), played(setup, events.drop_last()).awaited) {
            (SetupEvent::Updated, Awaited::Write(key)) => before.insert(key@, PROTECTED@),
            _ => before,
        }
    }
}

/// The targets whose key is known, each with its key.
pub open spec fn with_keys(targets: Seq<usize>, keys: Seq<Option<[u8; 16]>>) -> Seq<
    (usize, [u8; 16]),
>
    decreases keys.len(),
{
    if keys.len() == 0 {
        Seq::empty()
    } else {
        let before = with_keys(targets, keys.drop_last());
        match keys.last() {
            Some(key) => before.push((targets[keys.len() - 1], key)),
            None => before,
        }
    }
}

/// Whether the kernel map holds up to `capacity` keys: it refuses a key only where it is full and
/// does not hold that key already.
pub open spec fn holds_up_to(setup: SetupView, events: Seq<SetupEvent>, capacity: nat) -> bool
    decreases events.len(),
{
    events.len() == 0 || {
        let before = events.drop_last();
        &&& holds_up_to(setup, before, capacity)
        &&& events.last() is Refused ==> {
            &&& played(setup, before).awaited matches Awaited::Write(key)
            &&& !contents(setup, before).contains_key(key@)
            &&& contents(setup, before).dom().len() >= capacity
        }
    }
}

/// What an event answers: after any step, the events that can follow are those that the action
/// leads to.
pub proof fn law_events_answer_actions(setup: SetupView, event: SetupEvent, reply: SetupEvent)
    requires
        setup.expects(event),
    ensures
        setup.next(event).expects(reply) <==> answers(reply, setup.action(event)),
{
}

/// The target list, and how refusals are met, stay as they were; progress is never undone.
pub proof fn law_setup_only_advances(setup: SetupView, events: Seq<SetupEvent>)
    requires
        setup.wf(),
        plays(setup, events),
    ensures
        played(setup, events).wf(),
        played(setup, events).targets == setup.targets,
        played(setup, events).strict == setup.strict,
        played(setup, events).needs_one == setup.needs_one,
        played(setup, events).settled >= setup.settled,
        played(setup, events).protected >= setup.protected,
    decreases events.len(),
{
    if events.len() > 0 {
        law_setup_only_advances(setup, events.drop_last());
    }
}

/// A set-up that reports completion has settled every target, and has protected at least one
/// where one is needed.
pub proof fn law_finish_means_settled(setup: SetupView, event: SetupEvent)
    requires
        setup.wf(),
        setup.expects(event),
        setup.action(event) is Finish,
    ensures
        setup.next(event).settled == setup.targets.len(),
        setup.needs_one ==> setup.next(event).protected > 0,
{
}

/// A set-up that is not strict goes on after a refusal as after an entry whose key was not found.
pub proof fn law_tolerant_setup_passes_over_refusals(setup: SetupView)
    requires
        !setup.strict,
    ensures
        setup.action(SetupEvent::Refused) == setup.action(SetupEvent::Resolved(None)),
        setup.next(SetupEvent::Refused) == setup.next(SetupEvent::Resolved(None)),
        !(setup.action(SetupEvent::Refused) is Abort),
{
}

/// A strict set-up never goes on after a refusal: it fails, and nothing can follow.
pub proof fn law_strict_setup_fails_closed(setup: SetupView, event: SetupEvent)
    requires
        setup.strict,
    ensures
        setup.action(SetupEvent::Refused) is Abort,
        setup.next(SetupEvent::Refused).protected == setup.protected,
        !setup.next(SetupEvent::Refused).expects(event),
{
}

/// A set-up comes to an end: it takes no more than two steps for each target, and one to begin.
pub proof fn law_setup_ends(targets: Seq<usize>, strict: bool, needs_one: bool, events: Seq<SetupEvent>)
    requires
        plays(SetupView::fresh(targets, strict, needs_one), events),
    ensures
        events.len() <= 2 * targets.len() + 1,
{
    lemma_steps(targets, strict, needs_one, events);
    law_setup_only_advances(SetupView::fresh(targets, strict, needs_one), events);
}

proof fn lemma_steps(targets: Seq<usize>, strict: bool, needs_one: bool, events: Seq<SetupEvent>)
    requires
        plays(SetupView::fresh(targets, strict, needs_one), events),
    ensures
        ({
            let state = played(SetupView::fresh(targets, strict, needs_one), events);
            &&& state.awaited is Start ==> events.len() == 0
            &&& state.awaited is Key ==> events.len() <= 2 * state.settled + 1
            &&& state.awaited is Write ==> events.len() <= 2 * state.settled + 2
            &&& state.awaited is Nothing ==> events.len() <= 2 * targets.len() + 1
        }),
    decreases events.len(),
{
    if events.len() > 0 {
        lemma_steps(targets, strict, needs_one, events.drop_last());
        law_setup_only_advances(SetupView::fresh(targets, strict, needs_one), events.drop_last());
    }
}

/// Every key that was written is one that a target was resolved to, and as many targets count as
/// protected as keys were written.
pub proof fn law_only_resolved_keys_are_written(
    targets: Seq<usize>,
    strict: bool,
    needs_one: bool,
    events: Seq<SetupEvent>,
    i: int,
)
    requires
        plays(SetupView::fresh(targets, strict, needs_one), events),
        0 <= i < written(SetupView::fresh(targets, strict, needs_one), events).len(),
    ensures
        ({
            let setup = SetupView::fresh(targets, strict, needs_one);
            let (target, key) = written(setup, events)[i];
            &&& played(setup, events).protected == written(setup, events).len()
            &&& resolved(events).len() <= targets.len()
            &&& exists|p: int|
                0 <= p < resolved(events).len() && targets[p] == target && #[trigger] resolved(
                    events,
                )[p] == Some(key)
        }),
    decreases events.len(),
{
    let setup = SetupView::fresh(targets, strict, needs_one);
    let before = events.drop_last();
    lemma_course(targets, strict, needs_one, events);
    lemma_course(targets, strict, needs_one, before);
    law_setup_only_advances(setup, events);
    law_setup_only_advances(setup, before);
    if i < written(setup, before).len() {
        law_only_resolved_keys_are_written(targets, strict, needs_one, before, i);
        let (target, key) = written(setup, before)[i];
        let p = choose|p: int|
            0 <= p < resolved(before).len() && targets[p] == target && #[trigger] resolved(
                before,
            )[p] == Some(key);
        assert(resolved(events)[p] == Some(key));
    } else {
        let state = played(setup, before);
        assert(resolved(events)[state.settled as int] == Some(state.awaited->Write_0));
    }
}

/// How far the targets are resolved and written, at each point of a set-up.
proof fn lemma_course(targets: Seq<usize>, strict: bool, needs_one: bool, events: Seq<SetupEvent>)
    requires
        plays(SetupView::fresh(targets, strict, needs_one), events),
    ensures
        ({
            let setup = SetupView::fresh(targets, strict, needs_one);
            let state = played(setup, events);
            let keys = resolved(events);
            &&& state.protected == written(setup, events).len()
            &&& state.awaited is Start || state.awaited is Key ==> {
                &&& keys.len() == state.settled
                &&& strict ==> written(setup, events) == with_keys(targets, keys)
            }
            &&& state.awaited matches Awaited::Write(key) ==> {
                &&& keys.len() == state.settled + 1
                &&& keys.last() == Some(key)
                &&& strict ==> written(setup, events) == with_keys(targets, keys.drop_last())
            }
            &&& state.awaited is Nothing ==> {
                &&& keys.len() <= targets.len()
                &&& state.settled == targets.len() ==> {
                    &&& keys.len() == targets.len()
                    &&& strict ==> written(setup, events) == with_keys(targets, keys)
                }
            }
        }),
    decreases events.len(),
{
    let setup = SetupView::fresh(targets, strict, needs_one);
    if events.len() > 0 {
        let before = events.drop_last();
        lemma_course(targets, strict, needs_one, before);
        law_setup_only_advances(setup, before);
        let state = played(setup, before);
        let keys = resolved(before);
        match events.last() {
            SetupEvent::Resolved(key) => {
                assert(keys.push(key).drop_last() =~= keys);
            },
            SetupEvent::Updated => {
                assert(keys.drop_last().push(keys.last()) =~= keys);
            },
            _ => {},
        }
    }
}

/// A strict set-up that reports completion asked for the key of every target, and wrote exactly
/// those that were found, in the order of the targets.
pub proof fn law_finish_means_every_key_is_written(
    targets: Seq<usize>,
    needs_one: bool,
    events: Seq<SetupEvent>,
)
    requires
        events.len() > 0,
        plays(SetupView::fresh(targets, true, needs_one), events),
        last_action(SetupView::fresh(targets, true, needs_one), events) is Finish,
    ensures
        resolved(events).len() == targets.len(),
        written(SetupView::fresh(targets, true, needs_one), events) == with_keys(
            targets,
            resolved(events),
        ),
{
    let setup = SetupView::fresh(targets, true, needs_one);
    lemma_course(targets, true, needs_one, events);
    law_setup_only_advances(setup, events.drop_last());
}

proof fn lemma_contents(setup: SetupView, events: Seq<SetupEvent>, key: Seq<u8>)
    ensures
        contents(setup, events).contains_key(key) <==> exists|i: int|
            0 <= i < written(setup, events).len() && (#[trigger] written(setup, events)[i]).1@
                == key,
        contents(setup, events).contains_key(key) ==> contents(setup, events)[key] == PROTECTED@,
        contents(setup, events).dom().finite(),
        contents(setup, events).dom().len() <= written(setup, events).len(),
    decreases events.len(),
{
    if events.len() > 0 {
        let before = events.drop_last();
        lemma_contents(setup, before, key);
        let earlier = written(setup, before);
        let all = written(setup, events);
        match (events.last(), played(setup, before).awaited) {
            (SetupEvent::Updated, Awaited::Write(added)) => {
                assert(all.last().1 == added);
                if added@ == key {
                    assert(all[all.len() - 1].1@ == key);
                }
                if exists|i: int| 0 <= i < earlier.len() && (#[trigger] earlier[i]).1@ == key {
                    let i = choose|i: int|
                        0 <= i < earlier.len() && (#[trigger] earlier[i]).1@ == key;
                    assert(all[i].1@ == key);
                }
                if exists|i: int| 0 <= i < all.len() && (#[trigger] all[i]).1@ == key {
                    let i = choose|i: int| 0 <= i < all.len() && (#[trigger] all[i]).1@ == key;
                    if i < earlier.len() {
                        assert(earlier[i].1@ == key);
                    }
                }
            },
            _ => {},
        }
    }
}

proof fn lemma_with_keys(targets: Seq<usize>, keys: Seq<Option<[u8; 16]>>, key: Seq<u8>)
    requires
        keys.len() <= targets.len(),
    ensures
        (exists|i: int|
            0 <= i < with_keys(targets, keys).len() && (#[trigger] with_keys(targets, keys)[i]).1@
                == key) <==> exists|p: int|
            0 <= p < keys.len() && #[trigger] keys[p] is Some && keys[p]->0@ == key,
    decreases keys.len(),
{
    if keys.len() > 0 {
        let before = keys.drop_last();
        lemma_with_keys(targets, before, key);
        let earlier = with_keys(targets, before);
        let all = with_keys(targets, keys);
        if exists|i: int| 0 <= i < all.len() && (#[trigger] all[i]).1@ == key {
            let i = choose|i: int| 0 <= i < all.len() && (#[trigger] all[i]).1@ == key;
            if i < earlier.len() {
                assert(earlier[i].1@ == key);
                let p = choose|p: int|
                    0 <= p < before.len() && #[trigger] before[p] is Some && before[p]->0@ == key;
                assert(keys[p] is Some && keys[p]->0@ == key);
            } else {
                assert(keys[keys.len() - 1] is Some);
            }
        }
        if exists|p: int| 0 <= p < keys.len() && #[trigger] keys[p] is Some && keys[p]->0@ == key {
            let p = choose|p: int|
                0 <= p < keys.len() && #[trigger] keys[p] is Some && keys[p]->0@ == key;
            if p < before.len() {
                assert(before[p] is Some && before[p]->0@ == key);
                let i = choose|i: int| 0 <= i < earlier.len() && (#[trigger] earlier[i]).1@ == key;
                assert(all[i].1@ == key);
            } else {
                assert(all[all.len() - 1].1@ == key);
            }
        }
    }
}

/// Once a strict set-up reports completion, the kernel map holds exactly the keys that its targets
/// were resolved to, and marks each of them as protected.
pub proof fn law_finish_means_exactly_the_keys_are_held(
    targets: Seq<usize>,
    needs_one: bool,
    events: Seq<SetupEvent>,
    key: Seq<u8>,
)
    requires
        events.len() > 0,
        plays(SetupView::fresh(targets, true, needs_one), events),
        last_action(SetupView::fresh(targets, true, needs_one), events) is Finish,
    ensures
        ({
            let held = contents(SetupView::fresh(targets, true, needs_one), events);
            &&& held.contains_key(key) <==> exists|p: int|
                0 <= p < targets.len() && #[trigger] resolved(events)[p] is Some && resolved(
                    events,
                )[p]->0@ == key
            &&& held.contains_key(key) ==> held[key] == PROTECTED@
        }),
{
    law_finish_means_every_key_is_written(targets, needs_one, events);
    lemma_contents(SetupView::fresh(targets, true, needs_one), events, key);
    lemma_with_keys(targets, resolved(events), key);
}

/// Once the set-up over a scan reports completion, the kernel map holds exactly the keys of the
/// entries that the watchlist covers and whose key was found. `keys` is what the entries were
/// resolved to.
pub proof fn law_exactly_the_covered_entries_are_protected(
    scan: Seq<ScanEntry>,
    entry_type: EntryType,
    rule: HiddenRule,
    events: Seq<SetupEvent>,
    keys: spec_fn(int) -> Option<[u8; 16]>,
    key: Seq<u8>,
)
    requires
        scan.len() <= usize::MAX,
        events.len() > 0,
        ({
            let targets = coverage(scan, entry_type, rule, scan.len());
            let setup = SetupView::fresh(targets, true, false);
            &&& plays(setup, events)
            &&& last_action(setup, events) is Finish
            &&& forall|p: int|
                0 <= p < targets.len() ==> #[trigger] resolved(events)[p] == keys(targets[p] as int)
        }),
    ensures
        ({
            let targets = coverage(scan, entry_type, rule, scan.len());
            let held = contents(SetupView::fresh(targets, true, false), events);
            &&& held.contains_key(key) <==> exists|i: int|
                0 <= i < scan.len() && #[trigger] covered(scan, entry_type, rule, i) && keys(i) is Some
                    && keys(i)->0@ == key
            &&& held.contains_key(key) ==> held[key] == PROTECTED@
        }),
{
    let targets = coverage(scan, entry_type, rule, scan.len());
    let held = contents(SetupView::fresh(targets, true, false), events);
    law_finish_means_exactly_the_keys_are_held(targets, false, events, key);
    if held.contains_key(key) {
        let p = choose|p: int|
            0 <= p < targets.len() && #[trigger] resolved(events)[p] is Some && resolved(
                events,
            )[p]->0@ == key;
        assert(targets.contains(targets[p]));
        law_coverage_is_exact(scan, entry_type, rule, targets[p]);
        assert(covered(scan, entry_type, rule, targets[p] as int));
    }
    if exists|i: int|
        0 <= i < scan.len() && #[trigger] covered(scan, entry_type, rule, i) && keys(i) is Some
            && keys(i)->0@ == key {
        let i = choose|i: int|
            0 <= i < scan.len() && #[trigger] covered(scan, entry_type, rule, i) && keys(i) is Some
                && keys(i)->0@ == key;
        law_coverage_is_exact(scan, entry_type, rule, i as usize);
        let p = targets.index_of(i as usize);
        assert(resolved(events)[p] is Some);
    }
}

/// A map that holds as many keys as there are targets never refuses one: no set-up over it is
/// aborted, it ends with every target settled, and it leaves no more keys than the map can hold,
/// each of them marked as protected.
pub proof fn law_setup_fits_its_map(
    targets: Seq<usize>,
    strict: bool,
    needs_one: bool,
    events: Seq<SetupEvent>,
    capacity: nat,
    key: Seq<u8>,
)
    requires
        targets.len() <= capacity,
        plays(SetupView::fresh(targets, strict, needs_one), events),
        holds_up_to(SetupView::fresh(targets, strict, needs_one), events, capacity),
    ensures
        ({
            let setup = SetupView::fresh(targets, strict, needs_one);
            let held = contents(setup, events);
            &&& forall|i: int| 0 <= i < events.len() ==> !(#[trigger] events[i] is Refused)
            &&& held.dom().finite() && held.dom().len() <= capacity
            &&& held.contains_key(key) ==> held[key] == PROTECTED@
            &&& events.len() > 0 ==> !(last_action(setup, events) is Abort)
            &&& played(setup, events).awaited is Nothing ==> {
                &&& events.len() > 0
                &&& played(setup, events).settled == targets.len()
                &&& last_action(setup, events) is Finish || (needs_one && last_action(
                    setup,
                    events,
                ) is Empty)
            }
        }),
    decreases events.len(),
{
    let setup = SetupView::fresh(targets, strict, needs_one);
    lemma_contents(setup, events, key);
    lemma_course(targets, strict, needs_one, events);
    law_setup_only_advances(setup, events);
    if events.len() > 0 {
        let before = events.drop_last();
        law_setup_fits_its_map(targets, strict, needs_one, before, capacity, key);
        lemma_contents(setup, before, key);
        lemma_course(targets, strict, needs_one, before);
        law_setup_only_advances(setup, before);
        assert forall|i: int| 0 <= i < events.len() implies !(#[trigger] events[i] is Refused) by {
            if i < before.len() {
                assert(before[i] == events[i]);
            }
        }
    }
}

/// A scanned watchlist fits the map that was sized by the same scan: its set-up is never refused a
/// key, and ends in completion with no more keys than the map can hold.
pub proof fn law_scanned_watchlist_fits_its_map(
    scan: Seq<ScanEntry>,
    entry_type: EntryType,
    min_capacity: u32,
    ignore_hidden: bool,
    allow_hidden: &[&str],
    events: Seq<SetupEvent>,
    key: Seq<u8>,
)
    requires
        ({
            let rule = HiddenRule { ignore_hidden, allow_hidden };
            let targets = coverage(scan, entry_type, rule, scan.len());
            let setup = SetupView::fresh(targets, true, false);
            &&& plays(setup, events)
            &&& holds_up_to(
                setup,
                events,
                dynamic_capacity(scan, entry_type, min_capacity, ignore_hidden, allow_hidden),
            )
        }),
    ensures
        ({
            let rule = HiddenRule { ignore_hidden, allow_hidden };
            let targets = coverage(scan, entry_type, rule, scan.len());
            let setup = SetupView::fresh(targets, true, false);
            let held = contents(setup, events);
            &&& forall|i: int| 0 <= i < events.len() ==> !(#[trigger] events[i] is Refused)
            &&& held.dom().len() <= dynamic_capacity(
                scan,
                entry_type,
                min_capacity,
                ignore_hidden,
                allow_hidden,
            )
            &&& held.contains_key(key) ==> held[key] == PROTECTED@
            &&& played(setup, events).awaited is Nothing ==> last_action(setup, events) is Finish
        }),
{
    let rule = HiddenRule { ignore_hidden, allow_hidden };
    let targets = coverage(scan, entry_type, rule, scan.len());
    law_capacity_suffices(targets.len(), min_capacity);
    law_setup_fits_its_map(
        targets,
        true,
        false,
        events,
        dynamic_capacity(scan, entry_type, min_capacity, ignore_hidden, allow_hidden),
        key,
    );
}

/// A watchlist of opted-in binaries fits the map that was sized by the same scan.
pub proof fn law_opt_in_watchlist_fits_its_map(
    scan: Seq<ScanEntry>,
    events: Seq<SetupEvent>,
    key: Seq<u8>,
)
    requires
        ({
            let rule = HiddenRule { ignore_hidden: false, allow_hidden: &[] };
            let targets = coverage(scan, EntryType::File, rule, scan.len());
            let setup = SetupView::fresh(targets, true, false);
            &&& plays(setup, events)
            &&& holds_up_to(
                setup,
                events,
                capacity_for(files_in(scan, scan.len()), MIN_WATCHLIST_CAPACITY),
            )
        }),
    ensures
        ({
            let rule = HiddenRule { ignore_hidden: false, allow_hidden: &[] };
            let targets = coverage(scan, EntryType::File, rule, scan.len());
            let setup = SetupView::fresh(targets, true, false);
            let held = contents(setup, events);
            &&& forall|i: int| 0 <= i < events.len() ==> !(#[trigger] events[i] is Refused)
            &&& held.dom().len() <= capacity_for(
                files_in(scan, scan.len()),
                MIN_WATCHLIST_CAPACITY,
            )
            &&& held.contains_key(key) ==> held[key] == PROTECTED@
            &&& played(setup, events).awaited is Nothing ==> last_action(setup, events) is Finish
        }),
{
    law_watchlist_capacity_agrees(scan);
    law_scanned_watchlist_fits_its_map(
        scan,
        EntryType::File,
        MIN_WATCHLIST_CAPACITY,
        false,
        &[],
        events,
        key,
    );
}

/// How a set-up goes on, by what happened to the entry in hand. A key that was found is written. An
/// entry that was written, or whose key was not found, or whose key was refused where that is
/// tolerated, is followed by the next one; after the last one the set-up is complete, unless one
/// entry has to be protected and none is.
pub proof fn law_entries_are_taken_in_turn(setup: SetupView, event: SetupEvent)
    requires
        setup.wf(),
        setup.expects(event),
    ensures
        event matches SetupEvent::Resolved(Some(key)) ==> setup.action(event) == SetupAction::Update(
            key,
        ) && setup.next(event).settled == setup.settled && setup.next(event).protected
            == setup.protected,
        event is Refused && setup.strict ==> setup.action(event) is Abort,
        !(event matches SetupEvent::Resolved(Some(_))) && !(event is Refused && setup.strict) ==> {
            let settled = setup.settled + if event is Begin {
                0nat
            } else {
                1nat
            };
            let protected = setup.protected + if event is Updated {
                1nat
            } else {
                0nat
            };
            &&& setup.next(event).settled == settled
            &&& setup.next(event).protected == protected
            &&& settled < setup.targets.len() ==> setup.action(event) == SetupAction::Resolve(
                setup.targets[settled as int],
            )
            &&& settled >= setup.targets.len() && setup.needs_one && protected == 0
                ==> setup.action(event) is Empty
            &&& settled >= setup.targets.len() && !(setup.needs_one && protected == 0)
                ==> setup.action(event) is Finish
        },
{
}

/// A set-up of fixed files takes each of them, in their order.
pub proof fn law_each_fixed_file_is_taken(n: nat, i: int)
    requires
        n <= usize::MAX,
        0 <= i < n,
    ensures
        positions(n).len() == n,
        positions(n)[i] == i,
{
}

/// A binary opts in exactly by an attribute of the one character `1`.
pub proof fn law_a_single_one_opts_in(value: Seq<u8>)
    ensures
        opts_in(Some(value)) <==> value.len() == 1 && value[0] == 0x31,
        !opts_in(None),
{
    if value.len() == 1 && value[0] == 0x31 {
        assert(value =~= seq![49u8]);
    }
}

/// What a protected entry is marked with is the byte one.
pub proof fn law_protected_entries_hold_one()
    ensures
        PROTECTED@ == seq![1u8],
{
    assert(PROTECTED@ =~= seq![1u8]);
}

/// A failure names what could not be protected, and why.
pub proof fn law_failures_name_what_failed(name: Seq<char>, error: Seq<char>)
    ensures
        contains(path_failure_text(name, error), name),
        contains(path_failure_text(name, error), error),
        contains(xattr_failure_text(name, error), name),
        contains(xattr_failure_text(name, error), error),
{
    let none = Seq::<char>::empty();
    let path = path_failure_text(name, error);
    assert(path =~= "CRITICAL: Map update failed for "@ + name + (": "@ + error));
    law_contains_means_a_part(path, name);
    assert(path =~= ("CRITICAL: Map update failed for "@ + name + ": "@) + error + none);
    law_contains_means_a_part(path, error);
    let xattr = xattr_failure_text(name, error);
    assert(xattr =~= "CRITICAL: "@ + name + (" map failed to update: "@ + error));
    law_contains_means_a_part(xattr, name);
    assert(xattr =~= ("CRITICAL: "@ + name + " map failed to update: "@) + error + none);
    law_contains_means_a_part(xattr, error);
}

/// A watchlist over scanned paths takes, of entry `i`, exactly what its type, its depth and the names
/// around it say; the first refusal fails it, and it may be empty.
pub proof fn law_scanned_paths_fail_closed(
    scan: Seq<ScanEntry>,
    entry_type: EntryType,
    rule: HiddenRule,
    i: usize,
)
    requires
        scan.len() <= usize::MAX,
        i < scan.len(),
        entry_type == EntryType::File ==> scan[i as int].found == FoundType::File,
        entry_type == EntryType::Directory ==> scan[i as int].found == FoundType::Directory,
        scan[i as int].depth <= 20,
        !rule.ignore_hidden || forall|j: int|
            0 <= j <= i ==> (#[trigger] scan[j]).name@.len() == 0 || scan[j].name@[0] != '.',
    ensures
        paths_setup(scan, entry_type, rule).targets.contains(i),
        paths_setup(scan, entry_type, rule).strict,
        !paths_setup(scan, entry_type, rule).needs_one,
        paths_setup(scan, entry_type, rule).settled == 0,
        paths_setup(scan, entry_type, rule).protected == 0,
        paths_setup(scan, entry_type, rule).awaited is Start,
{
    law_coverage_by_type_depth_and_names(scan, entry_type, rule, i);
}

/// A watchlist of opted-in binaries takes every regular file down to the twentieth level as a
/// candidate, hidden or not, and nothing else; the first refusal fails it, and it may be empty.
pub proof fn law_opted_in_binaries_fail_closed(scan: Seq<ScanEntry>, i: usize)
    requires
        scan.len() <= usize::MAX,
    ensures
        xattr_setup(scan).targets.contains(i) <==> i < scan.len() && scan[i as int].found
            == FoundType::File && scan[i as int].depth <= 20,
        xattr_setup(scan).strict,
        !xattr_setup(scan).needs_one,
        xattr_setup(scan).settled == 0,
        xattr_setup(scan).awaited is Start,
{
    law_coverage_by_type_depth_and_names(
        scan,
        EntryType::File,
        HiddenRule { ignore_hidden: false, allow_hidden: &[] },
        i,
    );
}

/// A watchlist of fixed files takes each of them, passes over what the map refuses, and fails when
/// nothing is protected exactly where one file has to be.
pub proof fn law_fixed_files_pass_over_refusals(count: nat, needs_one: bool, i: int)
    requires
        count <= usize::MAX,
        0 <= i < count,
    ensures
        files_setup(count, needs_one).targets.len() == count,
        files_setup(count, needs_one).targets[i] == i,
        !files_setup(count, needs_one).strict,
        files_setup(count, needs_one).needs_one == needs_one,
        files_setup(count, needs_one).settled == 0,
        files_setup(count, needs_one).awaited is Start,
{
}

} // verus!
