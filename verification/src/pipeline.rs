//! The telemetry pipeline: which modules feed it, and who handles what comes out of it.

use crate::catalog::Alert;
use crate::module::{
    find_module, found_at, mangling_notice, mangling_text, HeuristicModule, Outcome,
};
use crate::siem::{emit_siem_event, event_line};
use crate::text::{decimal, texts};
use vstd::prelude::*;

verus! {

/// The kernel map through which a module sends its telemetry.
pub const ALERTS_MAP: &'static str = "alerts";

/// The line for a pipeline without any source.
pub const SILENT_NOTICE: &'static str =
    "· [Info] No telemetry maps found. Operating in silent enforcement mode.";

/// The modules whose telemetry is consumed.
pub struct TelemetryPipeline {
    staged: Vec<String>,
}

impl TelemetryPipeline {
    /// The slugs of the modules whose telemetry is consumed, in order.
    pub closed spec fn sources(&self) -> Seq<Seq<char>> {
        texts(self.staged@)
    }

    /// A pipeline without any source.
    pub fn new() -> (r: Self)
        ensures
            r.sources() == Seq::<Seq<char>>::empty(),
    {
        TelemetryPipeline { staged: Vec::new() }
    }

    /// Takes a loaded module and whether its telemetry map was found. A module without one does
    /// not feed the pipeline, and an operator is told.
    pub fn stage(&mut self, slug: &str, found: bool) -> (r: Option<String>)
        ensures
            r is None <==> found,
            found ==> final(self).sources() == old(self).sources().push(slug@),
            !found ==> final(self).sources() == old(self).sources(),
            r matches Some(line) ==> line@
                == "· [Warning] Standard 'alerts' map not found in module: "@ + slug@,
    {
        if found {
            let ghost before = self.staged@;
            self.staged.push(slug.to_owned());
            assert(texts(self.staged@) =~= texts(before).push(slug@));
            None
        } else {
            let mut line = "· [Warning] Standard 'alerts' map not found in module: ".to_owned();
            line.append(slug);
            Some(line)
        }
    }

    /// Whether nothing feeds the pipeline: the daemon then enforces without telemetry.
    pub fn is_silent(&self) -> (r: bool)
        ensures
            r == (self.sources().len() == 0),
    {
        self.staged.len() == 0
    }

    /// How many modules feed the pipeline.
    pub fn len(&self) -> (r: usize)
        ensures
            r == self.sources().len(),
    {
        self.staged.len()
    }

    /// The slug of a module that feeds the pipeline.
    pub fn source(&self, index: usize) -> (r: &str)
        requires
            index < self.sources().len(),
        ensures
            r@ == self.sources()[index as int],
    {
        self.staged[index].as_str()
    }
}

/// Hands one record of a module's telemetry to that module; none where no module goes by the slug.
pub fn route(registry: &[HeuristicModule], slug: &str, event_data: &[u8]) -> (r: Option<Outcome>)
    ensures
        exists|at: Option<usize>|
            {
                &&& #[trigger] found_at(registry@, slug@, at)
                &&& r is Some <==> at is Some
                &&& r matches Some(outcome) ==> registry@[at->0 as int].yields(event_data@, outcome)
            },
{
    let at = find_module(registry, slug);
    match at {
        Some(i) => Some(registry[i].process_event(event_data)),
        None => None,
    }
}

/// Something to do about a record, in the order in which it is done.
pub enum Effect {
    /// Tell an operator of something unusual.
    Warn(String),
    /// Append a line to the SIEM stream.
    Emit(String),
    /// Tell an operator of an alert.
    Report(String),
    /// Count a strike against a parent process.
    Strike(u32),
}

/// The model of an effect.
pub enum EffectView {
    /// Tell an operator of something unusual.
    Warn(Seq<char>),
    /// Append a line to the SIEM stream.
    Emit(Seq<char>),
    /// Tell an operator of an alert.
    Report(Seq<char>),
    /// Count a strike against a parent process.
    Strike(u32),
}

impl View for Effect {
    type V = EffectView;

    open spec fn view(&self) -> EffectView {
        match self {
            Effect::Warn(line) => EffectView::Warn(line@),
            Effect::Emit(line) => EffectView::Emit(line@),
            Effect::Report(line) => EffectView::Report(line@),
            Effect::Strike(ppid) => EffectView::Strike(*ppid),
        }
    }
}

/// The models of a list of effects.
pub open spec fn effect_views(effects: Seq<Effect>) -> Seq<EffectView> {
    effects.map_values(|effect: Effect| effect@)
}

/// A warning for each string that got shorter, in the model.
pub open spec fn mangling_effects(mangled: Seq<usize>) -> Seq<EffectView> {
    mangled.map_values(|lost: usize| EffectView::Warn(mangling_text(lost)))
}

/// What is done locally about an alert, in the model.
pub open spec fn local_effects(alert: Alert) -> Seq<EffectView> {
    match alert {
        Alert::RenameEntropy(rename) => seq![
            EffectView::Report(alert.report_text()),
            EffectView::Strike(rename.ppid),
        ],
        _ => seq![EffectView::Report(alert.report_text())],
    }
}

/// What is done about a record, in the model.
pub open spec fn effects_of(outcome: Outcome, timestamp_ms: u64, slug: Seq<char>) -> Seq<EffectView> {
    match outcome {
        Outcome::Dropped => Seq::empty(),
        Outcome::Malformed(notice) => seq![EffectView::Warn(notice@)],
        Outcome::Raised { alert, mangled } => mangling_effects(mangled@) + seq![
            EffectView::Emit(event_line(timestamp_ms, slug, alert)),
        ] + local_effects(alert),
    }
}

/// Appends an effect.
fn push_effect(effects: &mut Vec<Effect>, effect: Effect)
    ensures
        effect_views(final(effects)@) == effect_views(old(effects)@).push(effect@),
{
    effects.push(effect);
    assert(effect_views(effects@) =~= effect_views(old(effects)@).push(effect@));
}

/// What is done about a record: every alert goes to the SIEM stream before anything is done about
/// it locally.
pub fn respond(outcome: Outcome, timestamp_ms: u64, slug: &str) -> (r: Vec<Effect>)
    ensures
        effect_views(r@) == effects_of(outcome, timestamp_ms, slug@),
{
    let mut effects: Vec<Effect> = Vec::new();
    assert(effect_views(effects@) =~= Seq::empty());
    match outcome {
        Outcome::Dropped => {},
        Outcome::Malformed(notice) => {
            push_effect(&mut effects, Effect::Warn(notice));
            assert(effect_views(effects@) =~= seq![EffectView::Warn(notice@)]);
        },
        Outcome::Raised { alert, mangled } => {
            let mut i: usize = 0;
            while i < mangled.len()
                invariant
                    i <= mangled@.len(),
                    effect_views(effects@) == mangling_effects(mangled@.take(i as int)),
                decreases mangled@.len() - i,
            {
                push_effect(&mut effects, Effect::Warn(mangling_notice(mangled[i])));
                assert(effect_views(effects@) =~= mangling_effects(mangled@.take(i + 1)));
                i = i + 1;
            }
            assert(mangled@.take(i as int) =~= mangled@);
            let ghost warned = effect_views(effects@);
            push_effect(&mut effects, Effect::Emit(emit_siem_event(timestamp_ms, slug, &alert)));
            assert(effect_views(effects@) =~= warned + seq![
                EffectView::Emit(event_line(timestamp_ms, slug@, alert)),
            ]);
            let ghost emitted = effect_views(effects@);
            push_effect(&mut effects, Effect::Report(alert.report()));
            if let Alert::RenameEntropy(rename) = &alert {
                push_effect(&mut effects, Effect::Strike(rename.ppid));
            }
            assert(effect_views(effects@) =~= emitted + local_effects(alert));
        },
    }
    effects
}

/// Every record that raises an alert puts exactly one line into the SIEM stream, and no other
/// record does.
pub proof fn law_every_alert_is_emitted_once(outcome: Outcome, timestamp_ms: u64, slug: Seq<char>)
    ensures
        ({
            let effects = effects_of(outcome, timestamp_ms, slug);
            match outcome {
                Outcome::Raised { alert, mangled } => {
                    &&& effects.len() > mangled@.len()
                    &&& effects[mangled@.len() as int] == EffectView::Emit(
                        event_line(timestamp_ms, slug, alert),
                    )
                    &&& forall|i: int|
                        0 <= i < effects.len() && i != mangled@.len() ==> !(
                        #[trigger] effects[i] is Emit)
                },
                _ => forall|i: int| 0 <= i < effects.len() ==> !(#[trigger] effects[i] is Emit),
            }
        }),
{
}

/// An alert is in the SIEM stream before an operator is told of it and before any strike is
/// counted.
pub proof fn law_siem_comes_first(outcome: Outcome, timestamp_ms: u64, slug: Seq<char>, i: int, j: int)
    requires
        0 <= i < effects_of(outcome, timestamp_ms, slug).len(),
        0 <= j < effects_of(outcome, timestamp_ms, slug).len(),
        effects_of(outcome, timestamp_ms, slug)[i] is Emit,
        effects_of(outcome, timestamp_ms, slug)[j] is Report || effects_of(
            outcome,
            timestamp_ms,
            slug,
        )[j] is Strike,
    ensures
        i < j,
{
}

/// Every record that raises an alert, of whichever heuristic, is reported to an operator exactly
/// once, by the report of that alert; no other record is.
pub proof fn law_every_alert_is_reported_once(outcome: Outcome, timestamp_ms: u64, slug: Seq<char>)
    ensures
        ({
            let reports = effects_of(outcome, timestamp_ms, slug).filter(
                |effect: EffectView| effect is Report,
            );
            match outcome {
                Outcome::Raised { alert, .. } => reports == seq![
                    EffectView::Report(alert.report_text()),
                ],
                _ => reports == Seq::<EffectView>::empty(),
            }
        }),
{
    let effects = effects_of(outcome, timestamp_ms, slug);
    let report = |effect: EffectView| effect is Report;
    match outcome {
        Outcome::Raised { alert, mangled } => {
            lemma_filter_finds_one(effects, report, mangled@.len() as int + 1);
        },
        _ => {
            lemma_filter_finds_none(effects, report);
        },
    }
}

/// A strike is counted exactly for a rename alert, once, against the parent process that the alert
/// names.
pub proof fn law_a_strike_is_counted_for_each_rename(
    outcome: Outcome,
    timestamp_ms: u64,
    slug: Seq<char>,
)
    ensures
        ({
            let strikes = effects_of(outcome, timestamp_ms, slug).filter(
                |effect: EffectView| effect is Strike,
            );
            match outcome {
                Outcome::Raised { alert: Alert::RenameEntropy(rename), .. } => strikes == seq![
                    EffectView::Strike(rename.ppid),
                ],
                _ => strikes == Seq::<EffectView>::empty(),
            }
        }),
{
    let effects = effects_of(outcome, timestamp_ms, slug);
    let strike = |effect: EffectView| effect is Strike;
    match outcome {
        Outcome::Raised { alert: Alert::RenameEntropy(rename), mangled } => {
            lemma_filter_finds_one(effects, strike, mangled@.len() as int + 2);
        },
        _ => {
            lemma_filter_finds_none(effects, strike);
        },
    }
}

/// An operator is warned once of each string that got shorter, with the count of lost bytes and in
/// the order of the record, and once of a record that could not be decoded; of nothing else.
pub proof fn law_each_warning_is_given_once(
    outcome: Outcome,
    timestamp_ms: u64,
    slug: Seq<char>,
    i: int,
)
    ensures
        ({
            let effects = effects_of(outcome, timestamp_ms, slug);
            match outcome {
                Outcome::Dropped => effects.len() == 0,
                Outcome::Malformed(notice) => effects == seq![EffectView::Warn(notice@)],
                Outcome::Raised { alert, mangled } => {
                    &&& 0 <= i < mangled@.len() ==> i < effects.len() && effects[i]
                        == EffectView::Warn(
                        "Bouclier Bleu [Warning]: Sanitized "@ + decimal(mangled@[i] as nat)
                            + " non-printable chars from kernel string"@,
                    )
                    &&& mangled@.len() <= i < effects.len() ==> !(effects[i] is Warn)
                },
            }
        }),
{
}

proof fn lemma_filter_finds_none<T>(s: Seq<T>, wanted: spec_fn(T) -> bool)
    requires
        forall|i: int| 0 <= i < s.len() ==> !wanted(#[trigger] s[i]),
    ensures
        s.filter(wanted) == Seq::<T>::empty(),
    decreases s.len(),
{
    reveal(Seq::filter);
    if s.len() > 0 {
        lemma_filter_finds_none(s.drop_last(), wanted);
    } else {
        assert(s.filter(wanted) =~= Seq::<T>::empty());
    }
}

proof fn lemma_filter_finds_one<T>(s: Seq<T>, wanted: spec_fn(T) -> bool, at: int)
    requires
        0 <= at < s.len(),
        forall|i: int| 0 <= i < s.len() ==> (wanted(#[trigger] s[i]) <==> i == at),
    ensures
        s.filter(wanted) == seq![s[at]],
    decreases s.len(),
{
    reveal(Seq::filter);
    if at == s.len() - 1 {
        lemma_filter_finds_none(s.drop_last(), wanted);
        assert(s.filter(wanted) =~= seq![s[at]]);
    } else {
        lemma_filter_finds_one(s.drop_last(), wanted, at);
        assert(!wanted(s.last()));
    }
}

/// What is done about an alert, step by step: the warnings, its line in the SIEM stream, its report,
/// and last, for a rename, the strike.
pub proof fn law_order_of_effects(outcome: Outcome, timestamp_ms: u64, slug: Seq<char>)
    ensures
        outcome matches Outcome::Raised { alert, mangled } ==> {
            let effects = effects_of(outcome, timestamp_ms, slug);
            let n = mangled@.len() as int;
            &&& effects[n] is Emit
            &&& effects[n + 1] is Report
            &&& alert is RenameEntropy ==> effects.len() == n + 3 && effects[n + 2] is Strike
            &&& !(alert is RenameEntropy) ==> effects.len() == n + 2
        },
{
}

} // verus!
