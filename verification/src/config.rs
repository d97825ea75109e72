//! The daemon configuration: default module states, and the search for the file that sets them.

use crate::text::{contains, law_contains_means_a_part, same_text};
use vstd::prelude::*;

verus! {

/// Where a production daemon looks for its configuration.
pub const SEARCH_PATHS: [&'static str; 1] = ["/etc/bouclier-bleu/config.toml"];

/// Where a development daemon looks for its configuration.
pub const DEV_SEARCH_PATHS: [&'static str; 2] = ["/etc/bouclier-bleu/config.toml", "config.toml"];

/// The line for a search that found nothing.
pub const DEFAULTS_NOTICE: &'static str = "· [Config] No configuration file found. Operating with implicit defaults.";

/// The default startup states of the modules, by slug.
pub struct DaemonConfig {
    modules: Vec<(String, bool)>,
}

/// The states that a list of entries sets.
spec fn states(entries: Seq<(String, bool)>) -> Map<Seq<char>, bool>
    decreases entries.len(),
{
    if entries.len() == 0 {
        Map::empty()
    } else {
        states(entries.drop_last()).insert(entries.last().0@, entries.last().1)
    }
}

proof fn lemma_states(entries: Seq<(String, bool)>, slug: Seq<char>)
    ensures
        states(entries).dom().contains(slug) <==> exists|i: int|
            0 <= i < entries.len() && (#[trigger] entries[i]).0@ == slug,
    decreases entries.len(),
{
    if entries.len() > 0 {
        let init = entries.drop_last();
        lemma_states(init, slug);
        if states(entries).dom().contains(slug) {
            if slug == entries.last().0@ {
                assert(entries[entries.len() - 1].0@ == slug);
            } else {
                let i = choose|i: int| 0 <= i < init.len() && (#[trigger] init[i]).0@ == slug;
                assert(entries[i].0@ == slug);
            }
        }
        if exists|i: int| 0 <= i < entries.len() && (#[trigger] entries[i]).0@ == slug {
            let i = choose|i: int| 0 <= i < entries.len() && (#[trigger] entries[i]).0@ == slug;
            if i < init.len() {
                assert(init[i].0@ == slug);
            }
        }
    }
}

proof fn lemma_last_state(entries: Seq<(String, bool)>, at: int)
    requires
        0 <= at < entries.len(),
        forall|j: int| at < j < entries.len() ==> (#[trigger] entries[j]).0@ != entries[at].0@,
    ensures
        states(entries).dom().contains(entries[at].0@),
        states(entries)[entries[at].0@] == entries[at].1,
    decreases entries.len(),
{
    if at < entries.len() - 1 {
        lemma_last_state(entries.drop_last(), at);
        assert(entries[entries.len() - 1].0@ != entries[at].0@);
    }
}

impl View for DaemonConfig {
    type V = Map<Seq<char>, bool>;

    closed spec fn view(&self) -> Map<Seq<char>, bool> {
        states(self.modules@)
    }
}

impl Default for DaemonConfig {
    /// A configuration that sets nothing.
    fn default() -> (r: Self)
        ensures
            r@ == Map::<Seq<char>, bool>::empty(),
    {
        DaemonConfig { modules: Vec::new() }
    }
}

impl DaemonConfig {
    /// Sets the startup state of a module.
    pub fn set(&mut self, slug: &str, enabled: bool)
        ensures
            final(self)@ == old(self)@.insert(slug@, enabled),
    {
        let ghost before = self.modules@;
        self.modules.push((slug.to_owned(), enabled));
        assert(self.modules@.drop_last() =~= before);
    }

    /// The startup state that is set for a module, if any.
    pub fn get(&self, slug: &str) -> (r: Option<bool>)
        ensures
            r is Some <==> self@.dom().contains(slug@),
            r matches Some(enabled) ==> enabled == self@[slug@],
    {
        let mut i: usize = self.modules.len();
        while i > 0
            invariant
                i <= self.modules@.len(),
                forall|j: int|
                    i <= j < self.modules@.len() ==> (#[trigger] self.modules@[j]).0@ != slug@,
            decreases i,
        {
            i = i - 1;
            if same_text(self.modules[i].0.as_str(), slug) {
                proof {
                    lemma_last_state(self.modules@, i as int);
                }
                return Some(self.modules[i].1);
            }
        }
        proof {
            lemma_states(self.modules@, slug@);
        }
        None
    }

    /// Whether a module starts out enabled; one that is not mentioned does not.
    pub fn is_enabled(&self, slug: &str) -> (r: bool)
        ensures
            r == (self@.dom().contains(slug@) && self@[slug@]),
    {
        match self.get(slug) {
            Some(enabled) => enabled,
            None => false,
        }
    }
}

/// The paths that are searched, in order.
pub fn search_paths(development: bool) -> (r: &'static [&'static str])
    ensures
        r@ == if development {
            DEV_SEARCH_PATHS@
        } else {
            SEARCH_PATHS@
        },
{
    if development {
        &DEV_SEARCH_PATHS
    } else {
        &SEARCH_PATHS
    }
}

/// What came of the last action.
pub enum LoadEvent {
    /// Whether something stands at the path.
    Existence(bool),
    /// The owner of the file; none where the metadata could not be read.
    Owner(Option<u32>),
    /// The file was read; or the error.
    Contents(Result<(), String>),
    /// The contents are a configuration; or the error.
    Parsed(Result<(), String>),
}

/// What to do next.
pub enum LoadAction {
    /// See whether a file stands at the path of this index.
    Probe(usize),
    /// Find the owner of the file.
    CheckOwner,
    /// Read the file.
    Read,
    /// Parse what was read.
    Parse,
    /// Run with the configuration that was parsed.
    Use,
    /// Run with the defaults.
    Default,
    /// Stop the daemon, for this reason.
    Abort(String),
}

/// The model of an action.
pub enum LoadActionView {
    /// See whether a file stands at the path of this index.
    Probe(nat),
    /// Find the owner of the file.
    CheckOwner,
    /// Read the file.
    Read,
    /// Parse what was read.
    Parse,
    /// Run with the configuration that was parsed.
    Use,
    /// Run with the defaults.
    Default,
    /// Stop the daemon, for this reason.
    Abort(Seq<char>),
}

impl View for LoadAction {
    type V = LoadActionView;

    open spec fn view(&self) -> LoadActionView {
        match self {
            LoadAction::Probe(i) => LoadActionView::Probe(*i as nat),
            LoadAction::CheckOwner => LoadActionView::CheckOwner,
            LoadAction::Read => LoadActionView::Read,
            LoadAction::Parse => LoadActionView::Parse,
            LoadAction::Use => LoadActionView::Use,
            LoadAction::Default => LoadActionView::Default,
            LoadAction::Abort(reason) => LoadActionView::Abort(reason@),
        }
    }
}

/// The reason to stop over a file that root does not own.
pub open spec fn foreign_text(path: Seq<char>) -> Seq<char> {
    "FATAL: Configuration file "@ + path
        + " is not owned by root! Aborting to prevent privilege escalation."@
}

/// The reason to stop over a file that is no configuration.
pub open spec fn malformed_text(path: Seq<char>, error: Seq<char>) -> Seq<char> {
    "FATAL: Failed to parse TOML in "@ + path + ": "@ + error
        + ". Aborting to prevent a fail-open state."@
}

/// The action on the path of index `at`, when there is one: past the last, the defaults hold.
pub open spec fn probe_or_default(paths: Seq<&'static str>, at: nat) -> LoadActionView {
    if at < paths.len() {
        LoadActionView::Probe(at)
    } else {
        LoadActionView::Default
    }
}

/// The action that follows an event on the path of index `at`. A file that cannot be read is passed
/// over; one that somebody else owns, or that does not parse, stops the daemon.
pub open spec fn load_after(paths: Seq<&'static str>, at: nat, event: LoadEvent) -> LoadActionView {
    match event {
        LoadEvent::Existence(true) => LoadActionView::CheckOwner,
        LoadEvent::Existence(false) => probe_or_default(paths, at + 1),
        LoadEvent::Owner(Some(uid)) => if uid == 0 {
            LoadActionView::Read
        } else {
            LoadActionView::Abort(foreign_text(paths[at as int]@))
        },
        LoadEvent::Owner(None) => LoadActionView::Read,
        LoadEvent::Contents(Ok(_)) => LoadActionView::Parse,
        LoadEvent::Contents(Err(_)) => probe_or_default(paths, at + 1),
        LoadEvent::Parsed(Ok(_)) => LoadActionView::Use,
        LoadEvent::Parsed(Err(error)) => LoadActionView::Abort(
            malformed_text(paths[at as int]@, error@),
        ),
    }
}

/// The line for an operator that an event calls for, on the path of index `at`.
pub open spec fn load_notice(paths: Seq<&'static str>, at: nat, event: LoadEvent) -> Option<
    Seq<char>,
> {
    match event {
        LoadEvent::Contents(Err(error)) => Some(
            "· [Warning] Failed to read "@ + paths[at as int]@ + ": "@ + error@,
        ),
        LoadEvent::Parsed(Ok(_)) => Some(
            "· [Config] Loaded configuration from "@ + paths[at as int]@,
        ),
        _ => None,
    }
}

/// A search for the configuration file.
pub struct ConfigLoader {
    paths: &'static [&'static str],
    at: usize,
}

impl ConfigLoader {
    /// The paths that are searched.
    pub closed spec fn searched(&self) -> Seq<&'static str> {
        self.paths@
    }

    /// The index of the path in question.
    pub closed spec fn position(&self) -> nat {
        self.at as nat
    }

    /// Whether a path is in question.
    pub open spec fn wf(&self) -> bool {
        self.position() < self.searched().len() <= usize::MAX
    }

    /// Takes what came of the last action; gives the next action and the line for an operator.
    pub fn step(&mut self, event: LoadEvent) -> (r: (LoadAction, Option<String>))
        requires
            old(self).wf(),
        ensures
            final(self).searched() == old(self).searched(),
            r.0@ == load_after(old(self).searched(), old(self).position(), event),
            r.1 is Some <==> load_notice(old(self).searched(), old(self).position(), event) is Some,
            r.1 matches Some(line) ==> load_notice(
                old(self).searched(),
                old(self).position(),
                event,
            ) == Some(line@),
            r.0 matches LoadAction::Probe(i) ==> final(self).position() == i && final(self).wf(),
            !(r.0 is Probe) ==> final(self).position() == old(self).position() && final(self).wf(),
    {
        let path = self.paths[self.at];
        match event {
            LoadEvent::Existence(true) => (LoadAction::CheckOwner, None),
            LoadEvent::Existence(false) => (self.advance(), None),
            LoadEvent::Owner(Some(uid)) => if uid == 0 {
                (LoadAction::Read, None)
            } else {
                let mut reason = "FATAL: Configuration file ".to_owned();
                reason.append(path);
                reason.append(" is not owned by root! Aborting to prevent privilege escalation.");
                (LoadAction::Abort(reason), None)
            },
            LoadEvent::Owner(None) => (LoadAction::Read, None),
            LoadEvent::Contents(Ok(_)) => (LoadAction::Parse, None),
            LoadEvent::Contents(Err(error)) => {
                let mut line = "· [Warning] Failed to read ".to_owned();
                line.append(path);
                line.append(": ");
                line.append(error.as_str());
                (self.advance(), Some(line))
            },
            LoadEvent::Parsed(Ok(_)) => {
                let mut line = "· [Config] Loaded configuration from ".to_owned();
                line.append(path);
                (LoadAction::Use, Some(line))
            },
            LoadEvent::Parsed(Err(error)) => {
                let mut reason = "FATAL: Failed to parse TOML in ".to_owned();
                reason.append(path);
                reason.append(": ");
                reason.append(error.as_str());
                reason.append(". Aborting to prevent a fail-open state.");
                (LoadAction::Abort(reason), None)
            },
        }
    }

    /// Goes on to the next path; past the last, the defaults hold.
    fn advance(&mut self) -> (r: LoadAction)
        requires
            old(self).wf(),
        ensures
            final(self).wf(),
            final(self).searched() == old(self).searched(),
            r@ == probe_or_default(old(self).searched(), old(self).position() + 1),
            r matches LoadAction::Probe(i) ==> final(self).position() == i,
            !(r is Probe) ==> final(self).position() == old(self).position(),
    {
        let n: usize = self.paths.len();
        if self.at + 1 < n {
            self.at = self.at + 1;
            LoadAction::Probe(self.at)
        } else {
            LoadAction::Default
        }
    }
}

impl DaemonConfig {
    /// Starts the search for the configuration file at the first path.
    pub fn load(development: bool) -> (r: (ConfigLoader, LoadAction))
        ensures
            r.0.wf(),
            r.0.searched() == if development {
                DEV_SEARCH_PATHS@
            } else {
                SEARCH_PATHS@
            },
            r.0.position() == 0,
            r.1@ == LoadActionView::Probe(0),
    {
        let paths = search_paths(development);
        let n: usize = paths.len();
        (ConfigLoader { paths, at: 0 }, LoadAction::Probe(0))
    }
}

/// Whether an event reports on an action.
pub open spec fn reports(event: LoadEvent, action: LoadActionView) -> bool {
    match action {
        LoadActionView::Probe(_) => event is Existence,
        LoadActionView::CheckOwner => event is Owner,
        LoadActionView::Read => event is Contents,
        LoadActionView::Parse => event is Parsed,
        _ => false,
    }
}

/// Whether `actions` is what the search asks for, `at` the index of the path in question, and
/// `events` what came of each action, in turn.
pub open spec fn is_search(
    paths: Seq<&'static str>,
    actions: Seq<LoadActionView>,
    at: Seq<nat>,
    events: Seq<LoadEvent>,
) -> bool {
    &&& actions.len() == events.len() + 1
    &&& at.len() == actions.len()
    &&& actions[0] == LoadActionView::Probe(0)
    &&& at[0] == 0
    &&& forall|i: int|
        0 <= i < events.len() ==> {
            &&& reports(#[trigger] events[i], actions[i])
            &&& actions[i + 1] == load_after(paths, at[i], events[i])
            &&& at[i + 1] == match actions[i + 1] {
                LoadActionView::Probe(k) => k,
                _ => at[i],
            }
        }
}

/// A configuration is only used when its file is there, is not known to belong to anybody but
/// root, could be read, and parsed.
pub proof fn law_config_is_trustworthy(
    paths: Seq<&'static str>,
    actions: Seq<LoadActionView>,
    at: Seq<nat>,
    events: Seq<LoadEvent>,
)
    requires
        is_search(paths, actions, at, events),
        actions.last() is Use,
    ensures
        events.len() >= 4,
        events[events.len() - 4] matches LoadEvent::Existence(true),
        events[events.len() - 3] matches LoadEvent::Owner(owner) && (owner is None || owner == Some(
            0u32,
        )),
        events[events.len() - 2] matches LoadEvent::Contents(Ok(_)),
        events[events.len() - 1] matches LoadEvent::Parsed(Ok(_)),
        at[events.len() - 4] == at[events.len() - 1],
{
    let n = events.len() as int;
    assert(reports(events[n - 1], actions[n - 1]));
    assert(reports(events[n - 2], actions[n - 2]));
    assert(reports(events[n - 3], actions[n - 3]));
    assert(reports(events[n - 4], actions[n - 4]));
}

/// A file that somebody else owns, or that does not parse, always stops the daemon.
pub proof fn law_untrusted_config_aborts(paths: Seq<&'static str>, at: nat, event: LoadEvent)
    requires
        ({
            ||| event matches LoadEvent::Owner(Some(uid)) && uid != 0
            ||| event matches LoadEvent::Parsed(Err(_))
        }),
    ensures
        load_after(paths, at, event) is Abort,
{
}

/// The search goes on from path to path: one that is not there, or cannot be read, is followed by the
/// next one, and the last one by the defaults. A file that is there is read unless somebody else is
/// known to own it.
pub proof fn law_search_goes_from_path_to_path(paths: Seq<&'static str>, at: nat, event: LoadEvent)
    ensures
        (event matches LoadEvent::Existence(found) && !found) || (event matches LoadEvent::Contents(
            read,
        ) && read is Err) ==> {
            &&& at + 1 < paths.len() ==> load_after(paths, at, event) == LoadActionView::Probe(at + 1)
            &&& at + 1 >= paths.len() ==> load_after(paths, at, event) is Default
        },
        event matches LoadEvent::Existence(true) ==> load_after(paths, at, event) is CheckOwner,
        event matches LoadEvent::Owner(owner) ==> {
            &&& owner is None || owner == Some(0u32) ==> load_after(paths, at, event) is Read
            &&& (owner matches Some(uid) && uid != 0) ==> load_after(paths, at, event) is Abort
        },
        event matches LoadEvent::Contents(Ok(_)) ==> load_after(paths, at, event) is Parse,
        event matches LoadEvent::Parsed(parsed) ==> {
            &&& parsed is Ok ==> load_after(paths, at, event) is Use
            &&& parsed is Err ==> load_after(paths, at, event) is Abort
        },
{
}

proof fn lemma_every_path_up_to(
    paths: Seq<&'static str>,
    actions: Seq<LoadActionView>,
    at: Seq<nat>,
    events: Seq<LoadEvent>,
    n: int,
    k: nat,
)
    requires
        is_search(paths, actions, at, events),
        0 <= n <= events.len(),
        k <= at[n],
    ensures
        exists|i: int| 0 <= i <= n && #[trigger] actions[i] == LoadActionView::Probe(k),
        paths.len() > 0 ==> at[n] < paths.len(),
        actions[n] matches LoadActionView::Probe(p) ==> p == at[n],
    decreases n,
{
    if n == 0 {
        assert(actions[0] == LoadActionView::Probe(k));
    } else {
        assert(reports(events[n - 1], actions[n - 1]));
        lemma_every_path_up_to(paths, actions, at, events, n - 1, 0);
        if k <= at[n - 1] {
            lemma_every_path_up_to(paths, actions, at, events, n - 1, k);
            let i = choose|i: int| 0 <= i <= n - 1 && #[trigger] actions[i] == LoadActionView::Probe(k);
            assert(0 <= i <= n && actions[i] == LoadActionView::Probe(k));
        } else {
            assert(actions[n] == LoadActionView::Probe(k));
        }
    }
}

/// The defaults hold only after every path was looked at, and none of them held a file that could be
/// read.
pub proof fn law_defaults_come_after_every_path(
    paths: Seq<&'static str>,
    actions: Seq<LoadActionView>,
    at: Seq<nat>,
    events: Seq<LoadEvent>,
    k: nat,
)
    requires
        is_search(paths, actions, at, events),
        actions.last() is Default,
        k < paths.len(),
    ensures
        exists|i: int| 0 <= i < actions.len() && #[trigger] actions[i] == LoadActionView::Probe(k),
        (events.last() matches LoadEvent::Existence(found) && !found) || (
        events.last() matches LoadEvent::Contents(read) && read is Err),
{
    let n = events.len() as int;
    assert(reports(events[n - 1], actions[n - 1]));
    lemma_every_path_up_to(paths, actions, at, events, n - 1, 0);
    assert(at[n - 1] + 1 >= paths.len());
    lemma_every_path_up_to(paths, actions, at, events, n - 1, k);
    let i = choose|i: int| 0 <= i <= n - 1 && #[trigger] actions[i] == LoadActionView::Probe(k);
    assert(0 <= i < actions.len() && actions[i] == LoadActionView::Probe(k));
}

/// An operator is told of a file that cannot be read and of the file that is used, and the daemon
/// stops over a file only by naming it.
pub proof fn law_files_are_named(paths: Seq<&'static str>, at: nat, event: LoadEvent)
    requires
        at < paths.len(),
    ensures
        load_notice(paths, at, event) is Some <==> (event matches LoadEvent::Contents(read) && read
            is Err) || (event matches LoadEvent::Parsed(parsed) && parsed is Ok),
        load_notice(paths, at, event) matches Some(line) ==> contains(line, paths[at as int]@),
        event matches LoadEvent::Contents(Err(e)) ==> contains(
            load_notice(paths, at, event)->0,
            e@,
        ),
        load_after(paths, at, event) matches LoadActionView::Abort(reason) ==> contains(
            reason,
            paths[at as int]@,
        ),
        event matches LoadEvent::Parsed(Err(e)) ==> contains(
            load_after(paths, at, event)->Abort_0,
            e@,
        ),
{
    let path = paths[at as int]@;
    match event {
        LoadEvent::Contents(Err(e)) => {
            lemma_part("· [Warning] Failed to read "@, path, ": "@ + e@);
            lemma_part("· [Warning] Failed to read "@ + path + ": "@, e@, Seq::empty());
            assert("· [Warning] Failed to read "@ + path + ": "@ + e@
                =~= "· [Warning] Failed to read "@ + path + (": "@ + e@));
            assert("· [Warning] Failed to read "@ + path + ": "@ + e@ + Seq::empty()
                =~= "· [Warning] Failed to read "@ + path + ": "@ + e@);
        },
        LoadEvent::Parsed(Ok(_)) => {
            lemma_part("· [Config] Loaded configuration from "@, path, Seq::empty());
            assert("· [Config] Loaded configuration from "@ + path + Seq::empty()
                =~= "· [Config] Loaded configuration from "@ + path);
        },
        LoadEvent::Owner(_) => {
            lemma_part(
                "FATAL: Configuration file "@,
                path,
                " is not owned by root! Aborting to prevent privilege escalation."@,
            );
        },
        LoadEvent::Parsed(Err(e)) => {
            let head = "FATAL: Failed to parse TOML in "@;
            let tail = ". Aborting to prevent a fail-open state."@;
            lemma_part(head, path, ": "@ + e@ + tail);
            lemma_part(head + path + ": "@, e@, tail);
            assert(head + path + ": "@ + e@ + tail =~= head + path + (": "@ + e@ + tail));
        },
        _ => {},
    }
}

proof fn lemma_part(before: Seq<char>, s: Seq<char>, after: Seq<char>)
    ensures
        contains(before + s + after, s),
{
    law_contains_means_a_part(before + s + after, s);
}

/// The system's configuration is always looked for first, and a file of the working directory only
/// by a development daemon.
pub proof fn law_where_configurations_stand()
    ensures
        SEARCH_PATHS@.len() == 1,
        SEARCH_PATHS@[0]@ == "/etc/bouclier-bleu/config.toml"@,
        DEV_SEARCH_PATHS@.len() == 2,
        DEV_SEARCH_PATHS@[0]@ == "/etc/bouclier-bleu/config.toml"@,
        DEV_SEARCH_PATHS@[1]@ == "config.toml"@,
{
}

} // verus!
