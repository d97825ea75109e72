//! Unprivileged dump restriction: its telemetry record and operator report.

use crate::fields::{field_views, number_view, push_number, push_text, text_view, Field, FieldView};
use crate::reader::{raw_field, text_at, u32_at, undersized, with_mangled, BpfReader};
use crate::text::{
    blank, chars_of, decimal, is_white_space, law_first_word, law_trim_takes_the_ends,
    law_white_space, push_decimal, solid, texts, trim, trim_chars, words, words_of,
};
use vstd::prelude::*;

verus! {

/// The human-readable name of the module.
pub const NAME: &'static str = "Unprivileged Dump Restriction";

/// The identifier of the module.
pub const SLUG: &'static str = "dump_restrict";

/// The ATT&CK techniques that the module counters.
pub const MITRE: [&'static str; 2] = ["T1003", "T1068"];

/// The kernel map of the watchlist.
pub const MAP_NAME: &'static str = "protected_files";

/// The size of the watchlist map.
pub const CAPACITY: u32 = 16;

/// The size of a record: 4 (pid) + 4 (uid) + 4 (action_type) + 16 (comm).
pub const RECORD_LEN: usize = 28;

/// Writing a core file.
pub const ACTION_COREDUMP_FILE: u32 = 1;

/// Re-enabling `PR_SET_DUMPABLE`.
pub const ACTION_PRCTL_TAMPER: u32 = 2;

/// Piping a dump to a helper.
pub const ACTION_PIPED_HANDLER: u32 = 3;

/// An attempt to write a core dump or to change the dumpable state.
pub struct DumpAlert {
    /// The offending process.
    pub pid: u32,
    /// The user that the process runs as.
    pub uid: u32,
    /// What was attempted.
    pub action_type: u32,
    /// The name of the process.
    pub comm: String,
}

/// The label of an action, in the model.
pub open spec fn action_text(action_type: u32) -> Seq<char> {
    if action_type == ACTION_COREDUMP_FILE {
        "COREDUMP_GENERATION"@
    } else if action_type == ACTION_PRCTL_TAMPER {
        "PRCTL_DUMPABLE_TAMPER"@
    } else if action_type == ACTION_PIPED_HANDLER {
        "PIPED_COREDUMP_HANDLER"@
    } else {
        "UNKNOWN_VIOLATION"@
    }
}

/// The label under which an action is reported.
pub fn action_label(action_type: u32) -> (r: &'static str)
    ensures
        r@ == action_text(action_type),
{
    if action_type == ACTION_COREDUMP_FILE {
        "COREDUMP_GENERATION"
    } else if action_type == ACTION_PRCTL_TAMPER {
        "PRCTL_DUMPABLE_TAMPER"
    } else if action_type == ACTION_PIPED_HANDLER {
        "PIPED_COREDUMP_HANDLER"
    } else {
        "UNKNOWN_VIOLATION"
    }
}

impl DumpAlert {
    /// No text is longer than the field that it was read from.
    pub open spec fn fits(&self) -> bool {
        self.comm@.len() <= 16
    }

    /// Whether the alert holds exactly what `data` encodes.
    pub open spec fn decodes(&self, data: Seq<u8>) -> bool {
        &&& self.pid == u32_at(data, 0)
        &&& self.uid == u32_at(data, 4)
        &&& self.action_type == u32_at(data, 8)
        &&& self.comm@ == text_at(data, 12, 16)
    }

    /// The counts of lost bytes that reading `data` leaves behind.
    pub open spec fn mangled_in(data: Seq<u8>) -> Seq<usize> {
        with_mangled(Seq::empty(), raw_field(data.subrange(12, 28)))
    }

    /// The report line, in the model.
    pub open spec fn report_text(&self) -> Seq<char> {
        "Bouclier Bleu [BLOCK]: PID "@
            + decimal(self.pid as nat)
            + " (UID "@
            + decimal(self.uid as nat)
            + ") attempted ["@
            + action_text(self.action_type)
            + "] via process '"@
            + self.comm@
            + "'."@
    }

    /// The SIEM fields, in the model.
    pub open spec fn payload(&self) -> Seq<FieldView> {
        seq![
            number_view("pid"@, self.pid as u64),
            number_view("uid"@, self.uid as u64),
            number_view("action_type"@, self.action_type as u64),
            text_view("comm"@, self.comm@),
        ]
    }

    /// Reads one record from the start of `reader`.
    pub fn read_from(reader: &mut BpfReader<'_>) -> (r: Result<Self, &'static str>)
        requires
            old(reader).wf(),
            old(reader).consumed() == 0,
            old(reader).mangled_counts() == Seq::<usize>::empty(),
        ensures
            r is Ok <==> old(reader).record().len() >= RECORD_LEN,
            r matches Ok(alert) ==> {
                &&& alert.decodes(old(reader).record())
                &&& alert.fits()
                &&& final(reader).mangled_counts() == Self::mangled_in(old(reader).record())
            },
            r matches Err(e) ==> {
                &&& e@ == undersized()
                &&& final(reader).mangled_counts() == Seq::<usize>::empty()
            },
    {
        if reader.record_len() < RECORD_LEN {
            return Err("Telemetry payload violates minimum size constraints.");
        }
        let pid = reader.read_u32()?;
        let uid = reader.read_u32()?;
        let action_type = reader.read_u32()?;
        let comm = reader.read_string(16)?;
        Ok(DumpAlert { pid, uid, action_type, comm })
    }

    /// Decodes one record; a record shorter than the layout is rejected.
    pub fn try_from_bytes(data: &[u8]) -> (r: Result<Self, &'static str>)
        ensures
            r is Ok <==> data@.len() >= RECORD_LEN,
            r matches Ok(alert) ==> alert.decodes(data@) && alert.fits(),
            r matches Err(e) ==> e@ == undersized(),
    {
        let mut reader = BpfReader::new(data);
        Self::read_from(&mut reader)
    }

    /// The line that tells an operator of the alert.
    pub fn report(&self) -> (r: String)
        ensures
            r@ == self.report_text(),
    {
        let mut out = "Bouclier Bleu [BLOCK]: PID ".to_owned();
        push_decimal(&mut out, self.pid as u64);
        out.append(" (UID ");
        push_decimal(&mut out, self.uid as u64);
        out.append(") attempted [");
        out.append(action_label(self.action_type));
        out.append("] via process '");
        out.append(self.comm.as_str());
        out.append("'.");
        out
    }

    /// The fields that the alert contributes to a SIEM event, in the order of the record.
    pub fn fields(&self) -> (r: Vec<Field>)
        ensures
            field_views(r@) == self.payload(),
    {
        let mut out: Vec<Field> = Vec::new();
        push_number(&mut out, "pid", self.pid as u64);
        push_number(&mut out, "uid", self.uid as u64);
        push_number(&mut out, "action_type", self.action_type as u64);
        push_text(&mut out, "comm", self.comm.as_str());
        assert(field_views(out@) =~= self.payload());
        out
    }
}

/// The helper that a core pattern pipes dumps to: the first word after its leading bar.
pub open spec fn handler_of(core_pattern: Seq<char>) -> Option<Seq<char>> {
    let pattern = trim(core_pattern);
    if pattern.len() > 0 && pattern[0] == '|' && words(pattern.drop_first()).len() > 0 {
        Some(words(pattern.drop_first())[0])
    } else {
        None
    }
}

/// Extracts the helper binary from the kernel's core pattern, where dumps are piped to one.
pub fn piped_handler(core_pattern: &str) -> (r: Option<String>)
    ensures
        r is Some <==> handler_of(core_pattern@) is Some,
        r matches Some(path) ==> handler_of(core_pattern@) == Some(path@),
{
    let chars = chars_of(core_pattern);
    let pattern = trim_chars(&chars);
    if pattern.len() == 0 || pattern[0] != '|' {
        return None;
    }
    let mut rest: Vec<char> = Vec::new();
    let mut i: usize = 1;
    while i < pattern.len()
        invariant
            1 <= i <= pattern@.len(),
            rest@ == pattern@.subrange(1, i as int),
        decreases pattern@.len() - i,
    {
        rest.push(pattern[i]);
        i = i + 1;
    }
    assert(rest@ =~= pattern@.drop_first());
    let found = words_of(&rest);
    if found.len() == 0 {
        assert(texts(found@).len() == 0);
        return None;
    }
    assert(texts(found@)[0] == found@[0]@);
    Some(found[0].clone())
}

/// A core pattern that pipes dumps names its helper: the word that follows the bar, whatever blanks
/// stand around it and whatever arguments follow.
pub proof fn law_piped_helper_is_named(
    left: Seq<char>,
    gap: Seq<char>,
    helper: Seq<char>,
    arguments: Seq<char>,
    right: Seq<char>,
)
    requires
        blank(left),
        blank(gap),
        blank(right),
        helper.len() > 0,
        solid(helper),
        arguments.len() > 0 ==> is_white_space(arguments[0]) && !is_white_space(arguments.last()),
    ensures
        handler_of(left + (seq!['|'] + gap + helper + arguments) + right) == Some(helper),
{
    let body = gap + helper + arguments;
    let pattern = seq!['|'] + gap + helper + arguments;
    law_white_space('|');
    if arguments.len() == 0 {
        assert(pattern.last() == helper.last());
        assert(!is_white_space(helper[helper.len() - 1]));
    } else {
        assert(pattern.last() == arguments.last());
    }
    assert(pattern[0] == '|');
    law_trim_takes_the_ends(left, pattern, right);
    assert(pattern.drop_first() =~= body);
    law_first_word(gap, helper, arguments);
}

/// A core pattern that does not start with a bar, but for blanks, names no helper.
pub proof fn law_other_patterns_name_no_helper(left: Seq<char>, pattern: Seq<char>, right: Seq<char>)
    requires
        blank(left),
        blank(right),
        pattern.len() > 0 ==> !is_white_space(pattern[0]) && !is_white_space(pattern.last()),
        pattern.len() > 0 ==> pattern[0] != '|' || pattern.len() == 1,
    ensures
        handler_of(left + pattern + right) is None,
{
    law_trim_takes_the_ends(left, pattern, right);
    if pattern.len() == 1 {
        assert(pattern.drop_first() =~= Seq::<char>::empty());
    }
}

} // verus!
