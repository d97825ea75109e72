//! The contract of a defence module, the modules themselves, and their registry.

use crate::catalog::{Alert, Heuristic};
use crate::reader::{undersized, BpfReader};
use crate::text::{decimal, push_decimal, same_text};
use vstd::prelude::*;

verus! {

/// The boundary between the event router and one defensive heuristic.
pub trait SecurityModule {
    /// The name of the module.
    spec fn title(&self) -> Seq<char>;

    /// The identifier of the module.
    spec fn id(&self) -> Seq<char>;

    /// Whether the module is active.
    spec fn active(&self) -> bool;

    /// The human-readable name.
    fn name(&self) -> (r: &'static str)
        ensures
            r@ == self.title(),
    ;

    /// The unique identifier by which commands are routed to the module.
    fn slug(&self) -> (r: &'static str)
        ensures
            r@ == self.id(),
    ;

    /// Whether the module handles events; an inactive module drops them silently.
    fn status(&self) -> (r: bool)
        ensures
            r == self.active(),
    ;

    /// Sets the active state.
    fn toggle(&mut self, state: bool)
        ensures
            final(self).active() == state,
            final(self).title() == old(self).title(),
            final(self).id() == old(self).id(),
    ;
}

/// A named on/off switch: the state that every module has.
pub struct DefenseModule {
    name: &'static str,
    slug: &'static str,
    is_active: bool,
}

impl DefenseModule {
    /// A module that starts out active.
    pub fn new(name: &'static str, slug: &'static str) -> (r: Self)
        ensures
            r.title() == name@,
            r.id() == slug@,
            r.active(),
    {
        DefenseModule { name, slug, is_active: true }
    }
}

impl SecurityModule for DefenseModule {
    closed spec fn title(&self) -> Seq<char> {
        self.name@
    }

    closed spec fn id(&self) -> Seq<char> {
        self.slug@
    }

    closed spec fn active(&self) -> bool {
        self.is_active
    }

    fn name(&self) -> (r: &'static str) {
        self.name
    }

    fn slug(&self) -> (r: &'static str) {
        self.slug
    }

    fn status(&self) -> (r: bool) {
        self.is_active
    }

    fn toggle(&mut self, state: bool) {
        self.is_active = state;
    }
}

/// What a module makes of one kernel record.
pub enum Outcome {
    /// The module is inactive.
    Dropped,
    /// The record could not be decoded; holds the line that tells an operator so.
    Malformed(String),
    /// The record is an alert.
    Raised {
        /// The alert.
        alert: Alert,
        /// For each string of the record that sanitizing made shorter, how many bytes it lost.
        mangled: Vec<usize>,
    },
}

/// A module that runs one heuristic.
pub struct HeuristicModule {
    heuristic: Heuristic,
    state: DefenseModule,
}

impl HeuristicModule {
    /// The heuristic that the module runs.
    pub closed spec fn kind(&self) -> Heuristic {
        self.heuristic
    }

    /// The module goes by the name and the identifier of its heuristic.
    #[verifier::type_invariant]
    spec fn consistent(&self) -> bool {
        &&& self.state.title() == self.heuristic.title()
        &&& self.state.id() == self.heuristic.id()
    }

    /// A module for a heuristic; it starts out active.
    pub fn new(heuristic: Heuristic) -> (r: Self)
        ensures
            r.kind() == heuristic,
            r.active(),
    {
        HeuristicModule {
            heuristic,
            state: DefenseModule::new(heuristic.name(), heuristic.slug()),
        }
    }

    /// The heuristic that the module runs.
    pub fn heuristic(&self) -> (r: Heuristic)
        ensures
            r == self.kind(),
    {
        self.heuristic
    }

    /// The line for a record that could not be decoded, in the model.
    pub open spec fn malformed_text(&self) -> Seq<char> {
        "Bouclier Bleu [Error]: "@ + self.id() + " failed to parse kernel event: "@ + undersized()
    }

    /// Whether `outcome` is what the module makes of a record.
    pub open spec fn yields(&self, data: Seq<u8>, outcome: Outcome) -> bool {
        match outcome {
            Outcome::Dropped => !self.active(),
            Outcome::Malformed(notice) => {
                &&& self.active()
                &&& data.len() < self.kind().record_len()
                &&& notice@ == self.malformed_text()
            },
            Outcome::Raised { alert, mangled } => {
                &&& self.active()
                &&& data.len() >= self.kind().record_len()
                &&& alert.decodes(self.kind(), data)
                &&& alert.fits()
                &&& mangled@ == self.kind().mangled_in(data)
            },
        }
    }

    /// Decodes one record from the kernel. An inactive module drops it; a record that is too short
    /// is reported; any other is an alert.
    pub fn process_event(&self, event_data: &[u8]) -> (r: Outcome)
        ensures
            self.yields(event_data@, r),
    {
        if !self.status() {
            return Outcome::Dropped;
        }
        let mut reader = BpfReader::new(event_data);
        match self.heuristic.decode(&mut reader) {
            Ok(alert) => Outcome::Raised { alert, mangled: reader.into_mangled() },
            Err(e) => {
                let mut notice = "Bouclier Bleu [Error]: ".to_owned();
                notice.append(self.slug());
                notice.append(" failed to parse kernel event: ");
                notice.append(e);
                Outcome::Malformed(notice)
            },
        }
    }
}

impl SecurityModule for HeuristicModule {
    open spec fn title(&self) -> Seq<char> {
        self.kind().title()
    }

    open spec fn id(&self) -> Seq<char> {
        self.kind().id()
    }

    closed spec fn active(&self) -> bool {
        self.state.active()
    }

    fn name(&self) -> (r: &'static str) {
        proof {
            use_type_invariant(self);
        }
        self.state.name()
    }

    fn slug(&self) -> (r: &'static str) {
        proof {
            use_type_invariant(self);
        }
        self.state.slug()
    }

    fn status(&self) -> (r: bool) {
        self.state.status()
    }

    fn toggle(&mut self, state: bool)
        ensures
            final(self).kind() == old(self).kind(),
    {
        let mut next = DefenseModule::new(self.heuristic.name(), self.heuristic.slug());
        next.toggle(state);
        self.state = next;
    }
}

/// The heuristics of the active defence matrix, in the order of the registry.
pub open spec fn registered() -> Seq<Heuristic> {
    seq![
        Heuristic::ExecBlock,
        Heuristic::RenameEntropy,
        Heuristic::Shield,
        Heuristic::MountSecure,
        Heuristic::StrictWx,
        Heuristic::PtraceBlock,
        Heuristic::DumpRestrict,
        Heuristic::MadviseRatelimit,
        Heuristic::UsernsRestrict,
    ]
}

/// Constructs the active defence matrix.
pub fn build_registry() -> (r: Vec<HeuristicModule>)
    ensures
        r@.len() == registered().len(),
        forall|i: int|
            0 <= i < r@.len() ==> #[trigger] r@[i].kind() == registered()[i] && r@[i].active(),
{
    vec![
        HeuristicModule::new(Heuristic::ExecBlock),
        HeuristicModule::new(Heuristic::RenameEntropy),
        HeuristicModule::new(Heuristic::Shield),
        HeuristicModule::new(Heuristic::MountSecure),
        HeuristicModule::new(Heuristic::StrictWx),
        HeuristicModule::new(Heuristic::PtraceBlock),
        HeuristicModule::new(Heuristic::DumpRestrict),
        HeuristicModule::new(Heuristic::MadviseRatelimit),
        HeuristicModule::new(Heuristic::UsernsRestrict),
    ]
}

/// Whether `at` is where `slug` stands first in the registry: nowhere when no module has it.
pub open spec fn found_at<M: SecurityModule>(
    registry: Seq<M>,
    slug: Seq<char>,
    at: Option<usize>,
) -> bool {
    match at {
        Some(i) => {
            &&& i < registry.len()
            &&& registry[i as int].id() == slug
            &&& forall|j: int| 0 <= j < i ==> (#[trigger] registry[j]).id() != slug
        },
        None => forall|j: int| 0 <= j < registry.len() ==> (#[trigger] registry[j]).id() != slug,
    }
}

/// Finds the module that goes by `slug`.
pub fn find_module<M: SecurityModule>(registry: &[M], slug: &str) -> (r: Option<usize>)
    ensures
        found_at(registry@, slug@, r),
{
    let mut i: usize = 0;
    while i < registry.len()
        invariant
            i <= registry@.len(),
            forall|j: int| 0 <= j < i ==> (#[trigger] registry@[j]).id() != slug@,
        decreases registry@.len() - i,
    {
        if same_text(registry[i].slug(), slug) {
            return Some(i);
        }
        i = i + 1;
    }
    None
}

/// The line for a change of state, in the model.
pub open spec fn control_text(slug: Seq<char>, state: bool) -> Seq<char> {
    "Bouclier Bleu [Control]: "@ + slug + " active state -> "@ + if state {
        "true"@
    } else {
        "false"@
    }
}

/// The line that tells an operator that a module changed its state.
pub fn control_notice(slug: &str, state: bool) -> (r: String)
    ensures
        r@ == control_text(slug@, state),
{
    let mut out = "Bouclier Bleu [Control]: ".to_owned();
    out.append(slug);
    out.append(" active state -> ");
    if state {
        out.append("true");
    } else {
        out.append("false");
    }
    out
}

/// The line for a string that sanitizing made shorter, in the model.
pub open spec fn mangling_text(lost: usize) -> Seq<char> {
    "Bouclier Bleu [Warning]: Sanitized "@ + decimal(lost as nat)
        + " non-printable chars from kernel string"@
}

/// The line that tells an operator that sanitizing made a kernel string shorter.
pub fn mangling_notice(lost: usize) -> (r: String)
    ensures
        r@ == mangling_text(lost),
{
    let mut out = "Bouclier Bleu [Warning]: Sanitized ".to_owned();
    push_decimal(&mut out, lost as u64);
    out.append(" non-printable chars from kernel string");
    out
}

proof fn lemma_slugs_differ()
    ensures
        forall|i: int, j: int|
            0 <= i < j < registered().len() ==> #[trigger] registered()[i].id()
                != #[trigger] registered()[j].id(),
{
    reveal_strlit("exec_block");
    reveal_strlit("rename_entropy");
    reveal_strlit("shield");
    reveal_strlit("mount_secure");
    reveal_strlit("strict_wx");
    reveal_strlit("ptrace_block");
    reveal_strlit("dump_restrict");
    reveal_strlit("madvise_ratelimit");
    reveal_strlit("userns_restrict");
    let r = registered();
    assert(r[0].id().len() == 10 && r[1].id().len() == 14 && r[2].id().len() == 6);
    assert(r[3].id().len() == 12 && r[4].id().len() == 9 && r[5].id().len() == 12);
    assert(r[6].id().len() == 13 && r[7].id().len() == 17 && r[8].id().len() == 15);
    assert(r[3].id()[0] == 'm' && r[5].id()[0] == 'p');
    assert forall|i: int, j: int| 0 <= i < j < r.len() implies #[trigger] r[i].id()
        != #[trigger] r[j].id() by {
        assert(i == 0 || i == 1 || i == 2 || i == 3 || i == 4 || i == 5 || i == 6 || i == 7);
        assert(j == 1 || j == 2 || j == 3 || j == 4 || j == 5 || j == 6 || j == 7 || j == 8);
    }
}

/// Commands are routed without ambiguity: each module of the matrix is found under its own
/// identifier, and no two share one.
pub proof fn law_registry_is_unambiguous(registry: Seq<HeuristicModule>, at: int, found: Option<usize>)
    requires
        registry.len() == registered().len(),
        forall|i: int|
            0 <= i < registry.len() ==> #[trigger] registry[i].kind() == registered()[i],
        0 <= at < registry.len(),
        found_at(registry, registry[at].id(), found),
    ensures
        found == Some(at as usize),
{
    lemma_slugs_differ();
    assert(registry[at].kind() == registered()[at]);
    match found {
        Some(i) => {
            assert(registry[i as int].kind() == registered()[i as int]);
            if i < at {
                assert(registered()[i as int].id() != registered()[at].id());
            }
        },
        None => {},
    }
}

/// What becomes of a record is decided by the state of the module and the size of the record alone:
/// an inactive module drops it, an active one raises an alert of its own heuristic exactly if the
/// record is as long as its layout, and otherwise reports it under the module's name.
pub proof fn law_every_whole_record_is_an_alert(
    module: HeuristicModule,
    data: Seq<u8>,
    outcome: Outcome,
)
    requires
        module.yields(data, outcome),
    ensures
        ({
            let whole = data.len() >= match module.kind() {
                Heuristic::ExecBlock => 4100nat,
                Heuristic::RenameEntropy => 4360,
                Heuristic::Shield => 4104,
                Heuristic::MountSecure => 836,
                Heuristic::StrictWx => 20,
                Heuristic::PtraceBlock => 28,
                Heuristic::DumpRestrict => 28,
                Heuristic::MadviseRatelimit => 32,
                Heuristic::UsernsRestrict => 72,
                Heuristic::IoRestrict => 24,
            };
            &&& outcome is Dropped <==> !module.active()
            &&& outcome is Malformed <==> module.active() && !whole
            &&& outcome is Raised <==> module.active() && whole
            &&& outcome matches Outcome::Malformed(notice) ==> notice@ == "Bouclier Bleu [Error]: "@
                + module.id() + " failed to parse kernel event: "@
                + "Telemetry payload violates minimum size constraints."@
            &&& outcome matches Outcome::Raised { alert, .. } ==> alert.decodes(module.kind(), data)
        }),
{
}

/// Every heuristic but that on I/O is in the registry, once.
pub proof fn law_registry_holds_the_heuristics(heuristic: Heuristic)
    ensures
        registered().contains(heuristic) <==> heuristic != Heuristic::IoRestrict,
        registered().no_duplicates(),
        registered().len() == 9,
{
    let r = registered();
    assert(r[0] == Heuristic::ExecBlock && r[1] == Heuristic::RenameEntropy);
    assert(r[2] == Heuristic::Shield && r[3] == Heuristic::MountSecure);
    assert(r[4] == Heuristic::StrictWx && r[5] == Heuristic::PtraceBlock);
    assert(r[6] == Heuristic::DumpRestrict && r[7] == Heuristic::MadviseRatelimit);
    assert(r[8] == Heuristic::UsernsRestrict);
}

/// The identifiers of the heuristics.
pub proof fn law_heuristics_go_by_their_slugs(heuristic: Heuristic)
    ensures
        heuristic.id() == match heuristic {
            Heuristic::ExecBlock => "exec_block"@,
            Heuristic::RenameEntropy => "rename_entropy"@,
            Heuristic::Shield => "shield"@,
            Heuristic::MountSecure => "mount_secure"@,
            Heuristic::StrictWx => "strict_wx"@,
            Heuristic::PtraceBlock => "ptrace_block"@,
            Heuristic::DumpRestrict => "dump_restrict"@,
            Heuristic::MadviseRatelimit => "madvise_ratelimit"@,
            Heuristic::UsernsRestrict => "userns_restrict"@,
            Heuristic::IoRestrict => "io_restrict"@,
        },
{
}

/// The line for a change of state names the module and ends with the state.
pub proof fn law_control_line_names_the_state(slug: Seq<char>)
    ensures
        control_text(slug, true) == "Bouclier Bleu [Control]: "@ + slug + " active state -> "@
            + "true"@,
        control_text(slug, false) == "Bouclier Bleu [Control]: "@ + slug + " active state -> "@
            + "false"@,
{
}

} // verus!
