//! The heuristics as data: their identity, their watchlists, and their alerts.

use crate::fields::{field_views, Field, FieldView};
use crate::fs_utils::{
    calculate_dynamic_capacity, calculate_watchlist_capacity, capacity_for, count_files, coverage,
    files_in, law_watchlist_capacity_follows_the_files, lemma_same_rule_same_count, select_entries,
    EntryType, FoundType, HiddenRule, ScanEntry, MIN_WATCHLIST_CAPACITY,
};
use crate::heuristics::dump_restrict::{self, DumpAlert};
use crate::heuristics::exec_block::{self, ExecAlert};
use crate::heuristics::io_restrict::{self, IoRestrictAlert};
use crate::heuristics::madvise_ratelimit::{self, MadviseAlert};
use crate::heuristics::mount_secure::{self, MountAlert};
use crate::heuristics::ptrace_block::{self, PtraceAlert};
use crate::heuristics::rename_entropy::{self, joined, RenameAlert};
use crate::heuristics::shield::{self, ShieldAlert};
use crate::heuristics::strict_wx::{self, StrictWxAlert};
use crate::heuristics::userns_restrict::{self, UsernsAlert};
use crate::reader::{raw_field, text_at, u32_at, undersized, with_mangled, BpfReader};
use crate::text::decimal;
use vstd::prelude::*;

verus! {

/// A defence heuristic.
#[derive(Clone, Copy, PartialEq, Eq, Structural)]
pub enum Heuristic {
    /// Blocks execution from world-writable directories.
    ExecBlock,
    /// Detects ransomware by the entropy of renamed files.
    RenameEntropy,
    /// Protects the defence itself.
    Shield,
    /// Hardens removable media.
    MountSecure,
    /// Denies memory that is writable and executable.
    StrictWx,
    /// Denies process injection and credential dumping.
    PtraceBlock,
    /// Denies core dumps to unprivileged processes.
    DumpRestrict,
    /// Ends threads that spam memory advisories.
    MadviseRatelimit,
    /// Denies container escape primitives.
    UsernsRestrict,
    /// Confines asynchronous and zero-copy I/O.
    IoRestrict,
}

/// What a heuristic keeps a kernel watchlist of.
#[derive(Clone, Copy)]
pub enum Watch {
    /// Nothing.
    Nothing,
    /// The entries found by scanning directories.
    Scan {
        /// The kernel map.
        map_name: &'static str,
        /// Where the scans start.
        roots: &'static [&'static str],
        /// What is watched.
        entry_type: EntryType,
        /// The smallest size of the map.
        min_capacity: u32,
        /// Whether hidden entries are left out.
        ignore_hidden: bool,
        /// The hidden entries that are not.
        allow_hidden: &'static [&'static str],
    },
    /// The binaries that opt in by an extended attribute.
    OptIn {
        /// The kernel map.
        map_name: &'static str,
        /// The attribute.
        attribute: &'static str,
        /// Where the scans start.
        roots: &'static [&'static str],
    },
    /// A fixed list of files.
    Files {
        /// The kernel map.
        map_name: &'static str,
        /// The size of the map.
        capacity: u32,
        /// The files.
        paths: &'static [&'static str],
        /// Whether the module fails when none of them can be protected.
        needs_one: bool,
    },
    /// The helper that the kernel pipes core dumps to.
    CoreHandler {
        /// The kernel map.
        map_name: &'static str,
        /// The size of the map.
        capacity: u32,
    },
}

impl Heuristic {
    /// The human-readable name, in the model.
    pub open spec fn title(self) -> Seq<char> {
        match self {
            Heuristic::ExecBlock => exec_block::NAME@,
            Heuristic::RenameEntropy => rename_entropy::NAME@,
            Heuristic::Shield => shield::NAME@,
            Heuristic::MountSecure => mount_secure::NAME@,
            Heuristic::StrictWx => strict_wx::NAME@,
            Heuristic::PtraceBlock => ptrace_block::NAME@,
            Heuristic::DumpRestrict => dump_restrict::NAME@,
            Heuristic::MadviseRatelimit => madvise_ratelimit::NAME@,
            Heuristic::UsernsRestrict => userns_restrict::NAME@,
            Heuristic::IoRestrict => io_restrict::NAME@,
        }
    }

    /// The identifier, in the model.
    pub open spec fn id(self) -> Seq<char> {
        match self {
            Heuristic::ExecBlock => exec_block::SLUG@,
            Heuristic::RenameEntropy => rename_entropy::SLUG@,
            Heuristic::Shield => shield::SLUG@,
            Heuristic::MountSecure => mount_secure::SLUG@,
            Heuristic::StrictWx => strict_wx::SLUG@,
            Heuristic::PtraceBlock => ptrace_block::SLUG@,
            Heuristic::DumpRestrict => dump_restrict::SLUG@,
            Heuristic::MadviseRatelimit => madvise_ratelimit::SLUG@,
            Heuristic::UsernsRestrict => userns_restrict::SLUG@,
            Heuristic::IoRestrict => io_restrict::SLUG@,
        }
    }

    /// The techniques that the heuristic counters, in the model.
    pub open spec fn techniques(self) -> Seq<&'static str> {
        match self {
            Heuristic::ExecBlock => exec_block::MITRE@,
            Heuristic::RenameEntropy => rename_entropy::MITRE@,
            Heuristic::Shield => shield::MITRE@,
            Heuristic::MountSecure => mount_secure::MITRE@,
            Heuristic::StrictWx => strict_wx::MITRE@,
            Heuristic::PtraceBlock => ptrace_block::MITRE@,
            Heuristic::DumpRestrict => dump_restrict::MITRE@,
            Heuristic::MadviseRatelimit => madvise_ratelimit::MITRE@,
            Heuristic::UsernsRestrict => userns_restrict::MITRE@,
            Heuristic::IoRestrict => io_restrict::MITRE@,
        }
    }

    /// The size of a telemetry record.
    pub open spec fn record_len(self) -> usize {
        match self {
            Heuristic::ExecBlock => exec_block::RECORD_LEN,
            Heuristic::RenameEntropy => rename_entropy::RECORD_LEN,
            Heuristic::Shield => shield::RECORD_LEN,
            Heuristic::MountSecure => mount_secure::RECORD_LEN,
            Heuristic::StrictWx => strict_wx::RECORD_LEN,
            Heuristic::PtraceBlock => ptrace_block::RECORD_LEN,
            Heuristic::DumpRestrict => dump_restrict::RECORD_LEN,
            Heuristic::MadviseRatelimit => madvise_ratelimit::RECORD_LEN,
            Heuristic::UsernsRestrict => userns_restrict::RECORD_LEN,
            Heuristic::IoRestrict => io_restrict::RECORD_LEN,
        }
    }

    /// Whether `watch` is the watchlist of the heuristic.
    pub open spec fn keeps(self, watch: Watch) -> bool {
        match self {
            Heuristic::ExecBlock => watch matches Watch::Scan {
                map_name,
                roots,
                entry_type,
                min_capacity,
                ignore_hidden,
                allow_hidden,
            } && map_name@ == exec_block::MAP_NAME@ && roots@ == exec_block::ROOTS@ && entry_type
                == EntryType::Directory && min_capacity == exec_block::MIN_CAPACITY && !ignore_hidden
                && allow_hidden@.len() == 0,
            Heuristic::RenameEntropy => watch matches Watch::Scan {
                map_name,
                roots,
                entry_type,
                min_capacity,
                ignore_hidden,
                allow_hidden,
            } && map_name@ == rename_entropy::MAP_NAME@ && roots@ == rename_entropy::ROOTS@ && entry_type
                == EntryType::Directory && min_capacity == rename_entropy::MIN_CAPACITY && ignore_hidden
                && allow_hidden@ == rename_entropy::ALLOW_HIDDEN@,
            Heuristic::Shield => watch matches Watch::Files { map_name, capacity, paths, needs_one }
                && map_name@ == shield::MAP_NAME@ && capacity == shield::CAPACITY && paths@
                == shield::WATCHED@ && !needs_one,
            Heuristic::MountSecure => watch is Nothing,
            Heuristic::StrictWx => watch matches Watch::OptIn { map_name, attribute, roots }
                && map_name@ == strict_wx::MAP_NAME@ && attribute@ == strict_wx::ATTRIBUTE@ && roots@
                == strict_wx::ROOTS@,
            Heuristic::PtraceBlock => watch matches Watch::Files { map_name, capacity, paths, needs_one }
                && map_name@ == ptrace_block::MAP_NAME@ && capacity == ptrace_block::CAPACITY && paths@
                == ptrace_block::WATCHED@ && needs_one,
            Heuristic::DumpRestrict => watch matches Watch::CoreHandler { map_name, capacity }
                && map_name@ == dump_restrict::MAP_NAME@ && capacity == dump_restrict::CAPACITY,
            Heuristic::MadviseRatelimit => watch is Nothing,
            Heuristic::UsernsRestrict => watch is Nothing,
            Heuristic::IoRestrict => watch matches Watch::OptIn { map_name, attribute, roots }
                && map_name@ == io_restrict::MAP_NAME@ && attribute@ == io_restrict::ATTRIBUTE@ && roots@
                == io_restrict::ROOTS@,
        }
    }

    /// The human-readable name.
    pub fn name(self) -> (r: &'static str)
        ensures
            r@ == self.title(),
    {
        match self {
            Heuristic::ExecBlock => exec_block::NAME,
            Heuristic::RenameEntropy => rename_entropy::NAME,
            Heuristic::Shield => shield::NAME,
            Heuristic::MountSecure => mount_secure::NAME,
            Heuristic::StrictWx => strict_wx::NAME,
            Heuristic::PtraceBlock => ptrace_block::NAME,
            Heuristic::DumpRestrict => dump_restrict::NAME,
            Heuristic::MadviseRatelimit => madvise_ratelimit::NAME,
            Heuristic::UsernsRestrict => userns_restrict::NAME,
            Heuristic::IoRestrict => io_restrict::NAME,
        }
    }

    /// The identifier by which commands and kernel programs refer to the heuristic.
    pub fn slug(self) -> (r: &'static str)
        ensures
            r@ == self.id(),
    {
        match self {
            Heuristic::ExecBlock => exec_block::SLUG,
            Heuristic::RenameEntropy => rename_entropy::SLUG,
            Heuristic::Shield => shield::SLUG,
            Heuristic::MountSecure => mount_secure::SLUG,
            Heuristic::StrictWx => strict_wx::SLUG,
            Heuristic::PtraceBlock => ptrace_block::SLUG,
            Heuristic::DumpRestrict => dump_restrict::SLUG,
            Heuristic::MadviseRatelimit => madvise_ratelimit::SLUG,
            Heuristic::UsernsRestrict => userns_restrict::SLUG,
            Heuristic::IoRestrict => io_restrict::SLUG,
        }
    }

    /// The ATT&CK techniques that the heuristic counters.
    pub fn mitre(self) -> (r: &'static [&'static str])
        ensures
            r@ == self.techniques(),
    {
        match self {
            Heuristic::ExecBlock => &exec_block::MITRE,
            Heuristic::RenameEntropy => &rename_entropy::MITRE,
            Heuristic::Shield => &shield::MITRE,
            Heuristic::MountSecure => &mount_secure::MITRE,
            Heuristic::StrictWx => &strict_wx::MITRE,
            Heuristic::PtraceBlock => &ptrace_block::MITRE,
            Heuristic::DumpRestrict => &dump_restrict::MITRE,
            Heuristic::MadviseRatelimit => &madvise_ratelimit::MITRE,
            Heuristic::UsernsRestrict => &userns_restrict::MITRE,
            Heuristic::IoRestrict => &io_restrict::MITRE,
        }
    }

    /// The watchlist of the heuristic.
    pub fn watch(self) -> (r: Watch)
        ensures
            self.keeps(r),
    {
        match self {
            Heuristic::ExecBlock => Watch::Scan {
                map_name: exec_block::MAP_NAME,
                roots: &exec_block::ROOTS,
                entry_type: EntryType::Directory,
                min_capacity: exec_block::MIN_CAPACITY,
                ignore_hidden: false,
                allow_hidden: &[],
            },
            Heuristic::RenameEntropy => Watch::Scan {
                map_name: rename_entropy::MAP_NAME,
                roots: &rename_entropy::ROOTS,
                entry_type: EntryType::Directory,
                min_capacity: rename_entropy::MIN_CAPACITY,
                ignore_hidden: true,
                allow_hidden: &rename_entropy::ALLOW_HIDDEN,
            },
            Heuristic::Shield => Watch::Files {
                map_name: shield::MAP_NAME,
                capacity: shield::CAPACITY,
                paths: &shield::WATCHED,
                needs_one: false,
            },
            Heuristic::MountSecure => Watch::Nothing,
            Heuristic::StrictWx => Watch::OptIn {
                map_name: strict_wx::MAP_NAME,
                attribute: strict_wx::ATTRIBUTE,
                roots: &strict_wx::ROOTS,
            },
            Heuristic::PtraceBlock => Watch::Files {
                map_name: ptrace_block::MAP_NAME,
                capacity: ptrace_block::CAPACITY,
                paths: &ptrace_block::WATCHED,
                needs_one: true,
            },
            Heuristic::DumpRestrict => Watch::CoreHandler {
                map_name: dump_restrict::MAP_NAME,
                capacity: dump_restrict::CAPACITY,
            },
            Heuristic::MadviseRatelimit => Watch::Nothing,
            Heuristic::UsernsRestrict => Watch::Nothing,
            Heuristic::IoRestrict => Watch::OptIn {
                map_name: io_restrict::MAP_NAME,
                attribute: io_restrict::ATTRIBUTE,
                roots: &io_restrict::ROOTS,
            },
        }
    }
}

/// How many entries of a scan a watchlist is sized for, in the model.
pub open spec fn counted(watch: Watch, scan: Seq<ScanEntry>) -> nat {
    match watch {
        Watch::Scan { entry_type, ignore_hidden, allow_hidden, .. } => coverage(
            scan,
            entry_type,
            HiddenRule { ignore_hidden, allow_hidden },
            scan.len(),
        ).len(),
        Watch::OptIn { .. } => files_in(scan, scan.len()),
        _ => 0,
    }
}

/// How many entries of a scan a watchlist is sized for.
pub fn count_entries(watch: Watch, scan: &[ScanEntry]) -> (r: usize)
    ensures
        r == counted(watch, scan@),
{
    match watch {
        Watch::Scan { entry_type, ignore_hidden, allow_hidden, .. } => {
            let rule = HiddenRule { ignore_hidden, allow_hidden };
            select_entries(scan, entry_type, &rule).len()
        },
        Watch::OptIn { .. } => count_files(scan),
        _ => 0,
    }
}

/// The map and the size that a watchlist needs, in the model: none where nothing is watched.
pub open spec fn capacity_of(watch: Watch, scan: Seq<ScanEntry>) -> Option<(Seq<char>, nat)> {
    match watch {
        Watch::Nothing => None,
        Watch::Scan { map_name, min_capacity, .. } => Some(
            (map_name@, capacity_for(counted(watch, scan), min_capacity)),
        ),
        Watch::OptIn { map_name, .. } => Some(
            (map_name@, capacity_for(counted(watch, scan), MIN_WATCHLIST_CAPACITY)),
        ),
        Watch::Files { map_name, capacity, .. } => Some((map_name@, capacity as nat)),
        Watch::CoreHandler { map_name, capacity } => Some((map_name@, capacity as nat)),
    }
}

/// The size of the kernel map for a watchlist, by the name of the map. `scan` holds what was
/// found below the roots of the watchlist, where it has any.
pub fn map_capacities(watch: Watch, scan: &[ScanEntry]) -> (r: Option<(&'static str, u32)>)
    requires
        counted(watch, scan@) <= i32::MAX,
    ensures
        r is Some <==> capacity_of(watch, scan@) is Some,
        r matches Some(c) ==> capacity_of(watch, scan@) == Some((c.0@, c.1 as nat)),
{
    match watch {
        Watch::Nothing => None,
        Watch::Scan { map_name, entry_type, min_capacity, ignore_hidden, allow_hidden, .. } => Some(
            (
                map_name,
                calculate_dynamic_capacity(
                    scan,
                    entry_type,
                    min_capacity,
                    ignore_hidden,
                    allow_hidden,
                ),
            ),
        ),
        Watch::OptIn { map_name, .. } => Some((map_name, calculate_watchlist_capacity(scan))),
        Watch::Files { map_name, capacity, .. } => Some((map_name, capacity)),
        Watch::CoreHandler { map_name, capacity } => Some((map_name, capacity)),
    }
}

/// A heuristic has one watchlist: whichever value stands for it, the same entries are counted and
/// the same map gets the same size.
pub proof fn lemma_watchlist_is_unique(
    heuristic: Heuristic,
    a: Watch,
    b: Watch,
    scan: Seq<ScanEntry>,
)
    requires
        heuristic.keeps(a),
        heuristic.keeps(b),
    ensures
        counted(a, scan) == counted(b, scan),
        capacity_of(a, scan) == capacity_of(b, scan),
{
    match (a, b) {
        (
            Watch::Scan { entry_type, ignore_hidden, allow_hidden, .. },
            Watch::Scan { allow_hidden: other, .. },
        ) => {
            assert(allow_hidden@ =~= other@);
            lemma_same_rule_same_count(
                scan,
                entry_type,
                HiddenRule { ignore_hidden, allow_hidden },
                HiddenRule { ignore_hidden, allow_hidden: other },
            );
        },
        _ => {},
    }
}

/// A fixed list of files always fits its kernel map.
pub proof fn law_fixed_list_fits_its_map(heuristic: Heuristic, watch: Watch)
    requires
        heuristic.keeps(watch),
    ensures
        watch matches Watch::Files { capacity, paths, .. } ==> paths@.len() <= capacity,
{
}

/// An alert of any heuristic.
pub enum Alert {
    /// Raised by `exec_block`.
    ExecBlock(ExecAlert),
    /// Raised by `rename_entropy`.
    RenameEntropy(RenameAlert),
    /// Raised by `shield`.
    Shield(ShieldAlert),
    /// Raised by `mount_secure`.
    MountSecure(MountAlert),
    /// Raised by `strict_wx`.
    StrictWx(StrictWxAlert),
    /// Raised by `ptrace_block`.
    PtraceBlock(PtraceAlert),
    /// Raised by `dump_restrict`.
    DumpRestrict(DumpAlert),
    /// Raised by `madvise_ratelimit`.
    MadviseRatelimit(MadviseAlert),
    /// Raised by `userns_restrict`.
    UsernsRestrict(UsernsAlert),
    /// Raised by `io_restrict`.
    IoRestrict(IoRestrictAlert),
}

impl Alert {
    /// Whether the alert is one of the heuristic and holds exactly what `data` encodes.
    pub open spec fn decodes(&self, heuristic: Heuristic, data: Seq<u8>) -> bool {
        match self {
            Alert::ExecBlock(alert) => heuristic == Heuristic::ExecBlock && alert.decodes(data),
            Alert::RenameEntropy(alert) => heuristic == Heuristic::RenameEntropy && alert.decodes(data),
            Alert::Shield(alert) => heuristic == Heuristic::Shield && alert.decodes(data),
            Alert::MountSecure(alert) => heuristic == Heuristic::MountSecure && alert.decodes(data),
            Alert::StrictWx(alert) => heuristic == Heuristic::StrictWx && alert.decodes(data),
            Alert::PtraceBlock(alert) => heuristic == Heuristic::PtraceBlock && alert.decodes(data),
            Alert::DumpRestrict(alert) => heuristic == Heuristic::DumpRestrict && alert.decodes(data),
            Alert::MadviseRatelimit(alert) => heuristic == Heuristic::MadviseRatelimit && alert.decodes(data),
            Alert::UsernsRestrict(alert) => heuristic == Heuristic::UsernsRestrict && alert.decodes(data),
            Alert::IoRestrict(alert) => heuristic == Heuristic::IoRestrict && alert.decodes(data),
        }
    }

    /// No text of the alert is longer than what it was read from.
    pub open spec fn fits(&self) -> bool {
        match self {
            Alert::ExecBlock(alert) => alert.fits(),
            Alert::RenameEntropy(alert) => alert.fits(),
            Alert::Shield(alert) => alert.fits(),
            Alert::MountSecure(alert) => alert.fits(),
            Alert::StrictWx(alert) => alert.fits(),
            Alert::PtraceBlock(alert) => alert.fits(),
            Alert::DumpRestrict(alert) => alert.fits(),
            Alert::MadviseRatelimit(alert) => alert.fits(),
            Alert::UsernsRestrict(alert) => alert.fits(),
            Alert::IoRestrict(alert) => alert.fits(),
        }
    }

    /// The report line, in the model.
    pub open spec fn report_text(&self) -> Seq<char> {
        match self {
            Alert::ExecBlock(alert) => alert.report_text(),
            Alert::RenameEntropy(alert) => alert.report_text(),
            Alert::Shield(alert) => alert.report_text(),
            Alert::MountSecure(alert) => alert.report_text(),
            Alert::StrictWx(alert) => alert.report_text(),
            Alert::PtraceBlock(alert) => alert.report_text(),
            Alert::DumpRestrict(alert) => alert.report_text(),
            Alert::MadviseRatelimit(alert) => alert.report_text(),
            Alert::UsernsRestrict(alert) => alert.report_text(),
            Alert::IoRestrict(alert) => alert.report_text(),
        }
    }

    /// The SIEM fields, in the model.
    pub open spec fn payload(&self) -> Seq<FieldView> {
        match self {
            Alert::ExecBlock(alert) => alert.payload(),
            Alert::RenameEntropy(alert) => alert.payload(),
            Alert::Shield(alert) => alert.payload(),
            Alert::MountSecure(alert) => alert.payload(),
            Alert::StrictWx(alert) => alert.payload(),
            Alert::PtraceBlock(alert) => alert.payload(),
            Alert::DumpRestrict(alert) => alert.payload(),
            Alert::MadviseRatelimit(alert) => alert.payload(),
            Alert::UsernsRestrict(alert) => alert.payload(),
            Alert::IoRestrict(alert) => alert.payload(),
        }
    }

    /// The line that tells an operator of the alert.
    pub fn report(&self) -> (r: String)
        ensures
            r@ == self.report_text(),
    {
        match self {
            Alert::ExecBlock(alert) => alert.report(),
            Alert::RenameEntropy(alert) => alert.report(),
            Alert::Shield(alert) => alert.report(),
            Alert::MountSecure(alert) => alert.report(),
            Alert::StrictWx(alert) => alert.report(),
            Alert::PtraceBlock(alert) => alert.report(),
            Alert::DumpRestrict(alert) => alert.report(),
            Alert::MadviseRatelimit(alert) => alert.report(),
            Alert::UsernsRestrict(alert) => alert.report(),
            Alert::IoRestrict(alert) => alert.report(),
        }
    }

    /// The fields that the alert contributes to a SIEM event.
    pub fn fields(&self) -> (r: Vec<Field>)
        ensures
            field_views(r@) == self.payload(),
    {
        match self {
            Alert::ExecBlock(alert) => alert.fields(),
            Alert::RenameEntropy(alert) => alert.fields(),
            Alert::Shield(alert) => alert.fields(),
            Alert::MountSecure(alert) => alert.fields(),
            Alert::StrictWx(alert) => alert.fields(),
            Alert::PtraceBlock(alert) => alert.fields(),
            Alert::DumpRestrict(alert) => alert.fields(),
            Alert::MadviseRatelimit(alert) => alert.fields(),
            Alert::UsernsRestrict(alert) => alert.fields(),
            Alert::IoRestrict(alert) => alert.fields(),
        }
    }
}

impl Heuristic {
    /// The counts of lost bytes that decoding `data` leaves behind.
    pub open spec fn mangled_in(self, data: Seq<u8>) -> Seq<usize> {
        match self {
            Heuristic::ExecBlock => ExecAlert::mangled_in(data),
            Heuristic::RenameEntropy => RenameAlert::mangled_in(data),
            Heuristic::Shield => ShieldAlert::mangled_in(data),
            Heuristic::MountSecure => MountAlert::mangled_in(data),
            Heuristic::StrictWx => StrictWxAlert::mangled_in(data),
            Heuristic::PtraceBlock => PtraceAlert::mangled_in(data),
            Heuristic::DumpRestrict => DumpAlert::mangled_in(data),
            Heuristic::MadviseRatelimit => MadviseAlert::mangled_in(data),
            Heuristic::UsernsRestrict => UsernsAlert::mangled_in(data),
            Heuristic::IoRestrict => IoRestrictAlert::mangled_in(data),
        }
    }

    /// Decodes one record of the heuristic from the start of `reader`.
    pub fn decode(self, reader: &mut BpfReader<'_>) -> (r: Result<Alert, &'static str>)
        requires
            old(reader).wf(),
            old(reader).consumed() == 0,
            old(reader).mangled_counts() == Seq::<usize>::empty(),
        ensures
            r is Ok <==> old(reader).record().len() >= self.record_len(),
            r matches Ok(alert) ==> {
                &&& alert.decodes(self, old(reader).record())
                &&& alert.fits()
                &&& final(reader).mangled_counts() == self.mangled_in(old(reader).record())
            },
            r matches Err(e) ==> {
                &&& e@ == undersized()
                &&& final(reader).mangled_counts() == Seq::<usize>::empty()
            },
    {
        match self {
            Heuristic::ExecBlock => match ExecAlert::read_from(reader) {
                Ok(alert) => Ok(Alert::ExecBlock(alert)),
                Err(e) => Err(e),
            },
            Heuristic::RenameEntropy => match RenameAlert::read_from(reader) {
                Ok(alert) => Ok(Alert::RenameEntropy(alert)),
                Err(e) => Err(e),
            },
            Heuristic::Shield => match ShieldAlert::read_from(reader) {
                Ok(alert) => Ok(Alert::Shield(alert)),
                Err(e) => Err(e),
            },
            Heuristic::MountSecure => match MountAlert::read_from(reader) {
                Ok(alert) => Ok(Alert::MountSecure(alert)),
                Err(e) => Err(e),
            },
            Heuristic::StrictWx => match StrictWxAlert::read_from(reader) {
                Ok(alert) => Ok(Alert::StrictWx(alert)),
                Err(e) => Err(e),
            },
            Heuristic::PtraceBlock => match PtraceAlert::read_from(reader) {
                Ok(alert) => Ok(Alert::PtraceBlock(alert)),
                Err(e) => Err(e),
            },
            Heuristic::DumpRestrict => match DumpAlert::read_from(reader) {
                Ok(alert) => Ok(Alert::DumpRestrict(alert)),
                Err(e) => Err(e),
            },
            Heuristic::MadviseRatelimit => match MadviseAlert::read_from(reader) {
                Ok(alert) => Ok(Alert::MadviseRatelimit(alert)),
                Err(e) => Err(e),
            },
            Heuristic::UsernsRestrict => match UsernsAlert::read_from(reader) {
                Ok(alert) => Ok(Alert::UsernsRestrict(alert)),
                Err(e) => Err(e),
            },
            Heuristic::IoRestrict => match IoRestrictAlert::read_from(reader) {
                Ok(alert) => Ok(Alert::IoRestrict(alert)),
                Err(e) => Err(e),
            },
        }
    }
}

/// Every field of a record is told in its report, each in its place: the line is made of the values
/// at the offsets of the fields, and of nothing else that varies.
pub proof fn law_report_tells_every_field_of_the_record(
    heuristic: Heuristic,
    data: Seq<u8>,
    alert: Alert,
)
    requires
        alert.decodes(heuristic, data),
    ensures
        alert.report_text() == match heuristic {
            Heuristic::ExecBlock => "Bouclier Bleu [BLOCK]: PID "@
                + decimal(u32_at(data, 0) as nat)
                + " attempted execution from protected path: "@
                + text_at(data, 4, 4096),
            Heuristic::RenameEntropy => "Bouclier Bleu [FATAL]: PID "@
                + decimal(u32_at(data, 0) as nat)
                + " triggered ransomware entropy heuristic on target: "@
                + joined(text_at(data, 8, 4096), text_at(data, 4104, 256)),
            Heuristic::Shield => "Bouclier Bleu [SHIELD]: Blocked unauthorized action ["@
                + shield::action_text(u32_at(data, 4))
                + "] by PID "@
                + decimal(u32_at(data, 0) as nat)
                + " on target: "@
                + text_at(data, 8, 4096),
            Heuristic::MountSecure => "Bouclier Bleu [BLOCK]: PID "@
                + decimal(u32_at(data, 0) as nat)
                + " attempted insecure mount of "@
                + text_at(data, 4, 256)
                + " ("@
                + text_at(data, 260, 64)
                + ") at '"@
                + text_at(data, 324, 512)
                + "'. Enforcing MS_NOEXEC, MS_NOSUID, MS_NODEV."@,
            Heuristic::StrictWx => "Bouclier Bleu [BLOCK]: PID "@
                + decimal(u32_at(data, 0) as nat)
                + " attempted shellcode injection via PROT_WRITE | PROT_EXEC on "@
                + text_at(data, 4, 16)
                + "."@,
            Heuristic::PtraceBlock => "Bouclier Bleu [BLOCK]: PID "@
                + decimal(u32_at(data, 0) as nat)
                + " attempted ["@
                + ptrace_block::action_text(u32_at(data, 8))
                + "] against target '"@
                + text_at(data, 12, 16)
                + "' (PID "@
                + decimal(u32_at(data, 4) as nat)
                + ")."@,
            Heuristic::DumpRestrict => "Bouclier Bleu [BLOCK]: PID "@
                + decimal(u32_at(data, 0) as nat)
                + " (UID "@
                + decimal(u32_at(data, 4) as nat)
                + ") attempted ["@
                + dump_restrict::action_text(u32_at(data, 8))
                + "] via process '"@
                + text_at(data, 12, 16)
                + "'."@,
            Heuristic::MadviseRatelimit => "Bouclier Bleu [BLOCK]: Process '"@
                + text_at(data, 16, 16)
                + "' (PID "@
                + decimal(u32_at(data, 0) as nat)
                + ", TID "@
                + decimal(u32_at(data, 4) as nat)
                + ") neutralized for attempting ["@
                + madvise_ratelimit::action_text(u32_at(data, 12))
                + "] with "@
                + decimal(u32_at(data, 8) as nat)
                + " loop iterations."@,
            Heuristic::UsernsRestrict => "Bouclier Bleu [BLOCK]: PID "@
                + decimal(u32_at(data, 0) as nat)
                + " attempted container escape primitive ["@
                + userns_restrict::action_text(u32_at(data, 4))
                + "] targeting: "@
                + text_at(data, 8, 64)
                + "."@,
            Heuristic::IoRestrict => "Bouclier Bleu [BLOCK]: PID "@
                + decimal(u32_at(data, 0) as nat)
                + " attempted restricted I/O primitive ["@
                + io_restrict::action_text(u32_at(data, 4))
                + "] via "@
                + text_at(data, 8, 16)
                + "."@,
        },
{
}

/// Each action goes by its own label, and one that is not known by a label that says so.
pub proof fn law_actions_are_labelled(action: u32)
    ensures
        action == 1 ==> shield::action_text(action) == "FILE_TAMPER"@,
        action == 2 ==> shield::action_text(action) == "BPF_TAMPER"@,
        action == 3 ==> shield::action_text(action) == "SYSLOG_LEAK"@,
        (action == 0 || action > 3) ==> shield::action_text(action) == "UNKNOWN_VIOLATION"@,
        action == 1 ==> ptrace_block::action_text(action) == "CREDENTIAL_DUMP"@,
        action == 2 ==> ptrace_block::action_text(action) == "PROCESS_INJECTION"@,
        action == 3 ==> ptrace_block::action_text(action) == "PROC_MEM_TAMPER"@,
        (action == 0 || action > 3) ==> ptrace_block::action_text(action) == "UNKNOWN_VIOLATION"@,
        action == 1 ==> dump_restrict::action_text(action) == "COREDUMP_GENERATION"@,
        action == 2 ==> dump_restrict::action_text(action) == "PRCTL_DUMPABLE_TAMPER"@,
        action == 3 ==> dump_restrict::action_text(action) == "PIPED_COREDUMP_HANDLER"@,
        (action == 0 || action > 3) ==> dump_restrict::action_text(action) == "UNKNOWN_VIOLATION"@,
        action == 1 ==> madvise_ratelimit::action_text(action) == "MADVISE_RACE_CONDITION"@,
        action != 1 ==> madvise_ratelimit::action_text(action) == "UNKNOWN_VIOLATION"@,
        action == 1 ==> userns_restrict::action_text(action) == "USER_NAMESPACE_CREATION"@,
        action == 2 ==> userns_restrict::action_text(action) == "CAP_SYS_ADMIN_ACQUISITION"@,
        action == 3 ==> userns_restrict::action_text(action) == "PHYSICAL_DEVICE_MOUNT"@,
        (action == 0 || action > 3) ==> userns_restrict::action_text(action) == "UNKNOWN_VIOLATION"@,
        action == 1 ==> io_restrict::action_text(action) == "ASYNC_IO_SETUP"@,
        action == 2 ==> io_restrict::action_text(action) == "ZERO_COPY_VMSPLICE"@,
        action == 3 ==> io_restrict::action_text(action) == "ZERO_COPY_SPLICE"@,
        (action == 0 || action > 3) ==> io_restrict::action_text(action) == "UNKNOWN_IO_VIOLATION"@,
{
}

/// Every string of a record is looked at for lost bytes, in the order of the record.
pub proof fn law_every_string_is_looked_at_for_lost_bytes(heuristic: Heuristic, data: Seq<u8>)
    ensures
        heuristic.mangled_in(data) == match heuristic {
            Heuristic::ExecBlock => with_mangled(Seq::empty(), raw_field(data.subrange(4, 4100))),
            Heuristic::RenameEntropy => with_mangled(with_mangled(Seq::empty(), raw_field(data.subrange(8, 4104))), raw_field(data.subrange(4104, 4360))),
            Heuristic::Shield => with_mangled(Seq::empty(), raw_field(data.subrange(8, 4104))),
            Heuristic::MountSecure => with_mangled(with_mangled(with_mangled(Seq::empty(), raw_field(data.subrange(4, 260))), raw_field(data.subrange(260, 324))), raw_field(data.subrange(324, 836))),
            Heuristic::StrictWx => with_mangled(Seq::empty(), raw_field(data.subrange(4, 20))),
            Heuristic::PtraceBlock => with_mangled(Seq::empty(), raw_field(data.subrange(12, 28))),
            Heuristic::DumpRestrict => with_mangled(Seq::empty(), raw_field(data.subrange(12, 28))),
            Heuristic::MadviseRatelimit => with_mangled(Seq::empty(), raw_field(data.subrange(16, 32))),
            Heuristic::UsernsRestrict => with_mangled(Seq::empty(), raw_field(data.subrange(8, 72))),
            Heuristic::IoRestrict => with_mangled(Seq::empty(), raw_field(data.subrange(8, 24))),
        },
{
}

/// What each heuristic watches: directories that are scanned, binaries that opt in, fixed files, the
/// helper for core dumps, or nothing.
pub proof fn law_what_is_watched(heuristic: Heuristic, watch: Watch)
    requires
        heuristic.keeps(watch),
    ensures
        heuristic == Heuristic::ExecBlock ==> (watch matches Watch::Scan {
            map_name,
            roots,
            entry_type,
            min_capacity,
            ignore_hidden,
            allow_hidden,
        } && map_name@ == "protected_dirs"@ && roots@ == seq![
            "/tmp",
            "/var/tmp",
            "/dev/shm",
            "/var/crash",
            "/dev/mqueue",
            "/run/user",
        ] && entry_type == EntryType::Directory && min_capacity == 8192 && !ignore_hidden
            && allow_hidden@.len() == 0),
        heuristic == Heuristic::RenameEntropy ==> (watch matches Watch::Scan {
            map_name,
            roots,
            entry_type,
            min_capacity,
            ignore_hidden,
            allow_hidden,
        } && map_name@ == "protected_dirs"@ && roots@ == seq!["/home", "/var", "/etc", "/opt"]
            && entry_type == EntryType::Directory && min_capacity == 8192 && ignore_hidden
            && allow_hidden@ == seq![".ssh", ".gnupg", ".aws", ".kube", ".docker", ".config"]),
        heuristic == Heuristic::Shield ==> (watch matches Watch::Files {
            map_name,
            capacity,
            paths,
            needs_one,
        } && map_name@ == "protected_files"@ && capacity == 2 && paths@ == seq![
            "/etc/bouclier-bleu/config.toml",
            "/usr/bin/bouclier-bleu-core",
        ] && !needs_one),
        heuristic == Heuristic::PtraceBlock ==> (watch matches Watch::Files {
            map_name,
            capacity,
            paths,
            needs_one,
        } && map_name@ == "protected_processes"@ && capacity == 256 && paths@.len() == 25
            && needs_one),
        heuristic == Heuristic::DumpRestrict ==> (watch matches Watch::CoreHandler {
            map_name,
            capacity,
        } && map_name@ == "protected_files"@ && capacity == 16),
        heuristic == Heuristic::StrictWx ==> (watch matches Watch::OptIn {
            map_name,
            attribute,
            roots,
        } && map_name@ == "strict_wx_binaries"@ && attribute@ == "user.bouclier.strict_wx"@
            && roots@ == seq!["/bin", "/sbin", "/usr/bin", "/usr/sbin", "/opt"]),
        heuristic == Heuristic::IoRestrict ==> (watch matches Watch::OptIn {
            map_name,
            attribute,
            roots,
        } && map_name@ == "io_restrict_binaries"@ && attribute@ == "user.bouclier.io_restrict"@
            && roots@ == seq!["/bin", "/sbin", "/usr/bin", "/usr/sbin", "/opt"]),
        watch is Nothing <==> heuristic == Heuristic::MountSecure || heuristic
            == Heuristic::MadviseRatelimit || heuristic == Heuristic::UsernsRestrict,
{
    match watch {
        Watch::Scan { roots, allow_hidden, .. } => {
            if heuristic == Heuristic::ExecBlock {
                assert(roots@ =~= seq![
                    "/tmp",
                    "/var/tmp",
                    "/dev/shm",
                    "/var/crash",
                    "/dev/mqueue",
                    "/run/user",
                ]);
            } else {
                assert(roots@ =~= seq!["/home", "/var", "/etc", "/opt"]);
                assert(allow_hidden@ =~= seq![
                    ".ssh",
                    ".gnupg",
                    ".aws",
                    ".kube",
                    ".docker",
                    ".config",
                ]);
            }
        },
        Watch::OptIn { roots, .. } => {
            assert(roots@ =~= seq!["/bin", "/sbin", "/usr/bin", "/usr/sbin", "/opt"]);
        },
        Watch::Files { paths, .. } => {
            if heuristic == Heuristic::Shield {
                assert(paths@ =~= seq![
                    "/etc/bouclier-bleu/config.toml",
                    "/usr/bin/bouclier-bleu-core",
                ]);
            }
        },
        _ => {},
    }
}

/// The map of a watchlist over scanned entries has room for each of them and a quarter more; that of
/// a fixed list has the size of the list's map; without a watchlist there is no map.
pub proof fn law_map_sizes(watch: Watch, scan: Seq<ScanEntry>)
    ensures
        capacity_of(watch, scan) is None <==> watch is Nothing,
        watch matches Watch::Files { map_name, capacity, .. } ==> capacity_of(watch, scan) == Some(
            (map_name@, capacity as nat),
        ),
        watch matches Watch::CoreHandler { map_name, capacity } ==> capacity_of(watch, scan) == Some(
            (map_name@, capacity as nat),
        ),
        watch matches Watch::Scan {
            map_name,
            entry_type,
            min_capacity,
            ignore_hidden,
            allow_hidden,
            ..
        } ==> {
            let n = coverage(
                scan,
                entry_type,
                HiddenRule { ignore_hidden, allow_hidden },
                scan.len(),
            ).len();
            &&& capacity_of(watch, scan) matches Some((name, size)) && name == map_name@ && size
                >= min_capacity && 4 * size + 4 > 5 * n && (size == min_capacity || 4 * size <= 5 * n)
        },
        watch matches Watch::OptIn { map_name, .. } ==> {
            let n = scan.filter(|e: ScanEntry| e.found == FoundType::File && e.depth <= 20).len();
            &&& capacity_of(watch, scan) matches Some((name, size)) && name == map_name@ && size
                >= 2048 && 4 * size + 4 > 5 * n && (size == 2048 || 4 * size <= 5 * n)
        },
{
    law_watchlist_capacity_follows_the_files(scan);
}

/// The names of the heuristics and the techniques that they counter.
pub proof fn law_what_heuristics_are_called(heuristic: Heuristic)
    ensures
        heuristic.title() == match heuristic {
            Heuristic::ExecBlock => "Untrusted Path Execution Prevention"@,
            Heuristic::RenameEntropy => "Ransomware Rename Entropy Monitor"@,
            Heuristic::Shield => "Self-Defense Architecture"@,
            Heuristic::MountSecure => "Removable Media Neutralizer"@,
            Heuristic::StrictWx => "Strict Write XOR Execute (W^X)"@,
            Heuristic::PtraceBlock => "Process Injection Prevention"@,
            Heuristic::DumpRestrict => "Unprivileged Dump Restriction"@,
            Heuristic::MadviseRatelimit => "Race Condition Mitigator"@,
            Heuristic::UsernsRestrict => "Namespace Escape Monitor"@,
            Heuristic::IoRestrict => "I/O Confinement Monitor"@,
        },
        heuristic.techniques() == match heuristic {
            Heuristic::ExecBlock => Seq::<&'static str>::empty(),
            Heuristic::RenameEntropy => seq!["T1486"],
            Heuristic::Shield => Seq::<&'static str>::empty(),
            Heuristic::MountSecure => Seq::<&'static str>::empty(),
            Heuristic::StrictWx => seq!["T1055", "T1620", "T1027.002"],
            Heuristic::PtraceBlock => seq!["T1055", "T1003.008", "T1068"],
            Heuristic::DumpRestrict => seq!["T1003", "T1068"],
            Heuristic::MadviseRatelimit => seq!["T1068"],
            Heuristic::UsernsRestrict => seq!["T1611", "T1068", "T1610", "T1612"],
            Heuristic::IoRestrict => seq!["T1486", "T1068"],
        },
{
    match heuristic {
        Heuristic::ExecBlock => {
            assert(heuristic.techniques() =~= Seq::<&'static str>::empty());
        },
        Heuristic::RenameEntropy => {
            assert(heuristic.techniques() =~= seq!["T1486"]);
        },
        Heuristic::Shield => {
            assert(heuristic.techniques() =~= Seq::<&'static str>::empty());
        },
        Heuristic::MountSecure => {
            assert(heuristic.techniques() =~= Seq::<&'static str>::empty());
        },
        Heuristic::StrictWx => {
            assert(heuristic.techniques() =~= seq!["T1055", "T1620", "T1027.002"]);
        },
        Heuristic::PtraceBlock => {
            assert(heuristic.techniques() =~= seq!["T1055", "T1003.008", "T1068"]);
        },
        Heuristic::DumpRestrict => {
            assert(heuristic.techniques() =~= seq!["T1003", "T1068"]);
        },
        Heuristic::MadviseRatelimit => {
            assert(heuristic.techniques() =~= seq!["T1068"]);
        },
        Heuristic::UsernsRestrict => {
            assert(heuristic.techniques() =~= seq!["T1611", "T1068", "T1610", "T1612"]);
        },
        Heuristic::IoRestrict => {
            assert(heuristic.techniques() =~= seq!["T1486", "T1068"]);
        },
    }
}

/// The processes that hold credentials are those whose memory is protected.
pub proof fn law_credential_processes_are_watched(watch: Watch)
    requires
        Heuristic::PtraceBlock.keeps(watch),
    ensures
        watch matches Watch::Files { paths, .. } && paths@ == seq![
    "/usr/sbin/sshd",
    "/usr/bin/sshd",
    "/usr/sbin/sshd-session",
    "/usr/bin/sshd-session",
    "/usr/bin/passwd",
    "/usr/bin/su",
    "/usr/bin/sudo",
    "/sbin/pam_timestamp_check",
    "/usr/sbin/pam_timestamp_check",
    "/sbin/unix_chkpwd",
    "/usr/sbin/unix_chkpwd",
    "/usr/sbin/sssd",
    "/usr/bin/sssd",
    "/usr/lib/systemd/systemd-logind",
    "/usr/lib/polkit-1/polkitd",
    "/usr/libexec/polkit-1/polkitd",
    "/usr/bin/gnome-keyring-daemon",
    "/usr/bin/kwalletd5",
    "/usr/bin/gpg-agent",
    "/usr/sbin/gdm3",
    "/usr/sbin/gdm",
    "/usr/bin/gdm",
    "/usr/sbin/lightdm",
    "/usr/bin/lightdm",
    "/usr/bin/sddm",
],
{
    if let Watch::Files { paths, .. } = watch {
        assert(paths@ =~= seq![
    "/usr/sbin/sshd",
    "/usr/bin/sshd",
    "/usr/sbin/sshd-session",
    "/usr/bin/sshd-session",
    "/usr/bin/passwd",
    "/usr/bin/su",
    "/usr/bin/sudo",
    "/sbin/pam_timestamp_check",
    "/usr/sbin/pam_timestamp_check",
    "/sbin/unix_chkpwd",
    "/usr/sbin/unix_chkpwd",
    "/usr/sbin/sssd",
    "/usr/bin/sssd",
    "/usr/lib/systemd/systemd-logind",
    "/usr/lib/polkit-1/polkitd",
    "/usr/libexec/polkit-1/polkitd",
    "/usr/bin/gnome-keyring-daemon",
    "/usr/bin/kwalletd5",
    "/usr/bin/gpg-agent",
    "/usr/sbin/gdm3",
    "/usr/sbin/gdm",
    "/usr/bin/gdm",
    "/usr/sbin/lightdm",
    "/usr/bin/lightdm",
    "/usr/bin/sddm",
]);
    }
}

} // verus!
