//! Memory advisory race mitigation: its telemetry record and operator report.

use crate::fields::{field_views, number_view, push_number, push_text, text_view, Field, FieldView};
use crate::reader::{raw_field, text_at, u32_at, undersized, with_mangled, BpfReader};
use crate::text::{decimal, push_decimal};
use vstd::prelude::*;

verus! {

/// The human-readable name of the module.
pub const NAME: &'static str = "Race Condition Mitigator";

/// The identifier of the module.
pub const SLUG: &'static str = "madvise_ratelimit";

/// The ATT&CK techniques that the module counters.
pub const MITRE: [&'static str; 1] = ["T1068"];

/// The size of a record: 4 (pid) + 4 (tid) + 4 (count) + 4 (action_type) + 16 (comm).
pub const RECORD_LEN: usize = 32;

/// Looping on `MADV_DONTNEED`.
pub const ACTION_MADVISE_SPAM: u32 = 1;

/// A thread that spams memory advisories to win a race condition.
pub struct MadviseAlert {
    /// The offending process.
    pub pid: u32,
    /// The offending thread.
    pub tid: u32,
    /// How many calls were counted in the window.
    pub count: u32,
    /// What was attempted.
    pub action_type: u32,
    /// The name of the process.
    pub comm: String,
}

/// The label of an action, in the model.
pub open spec fn action_text(action_type: u32) -> Seq<char> {
    if action_type == ACTION_MADVISE_SPAM {
        "MADVISE_RACE_CONDITION"@
    } else {
        "UNKNOWN_VIOLATION"@
    }
}

/// The label under which an action is reported.
pub fn action_label(action_type: u32) -> (r: &'static str)
    ensures
        r@ == action_text(action_type),
{
    if action_type == ACTION_MADVISE_SPAM {
        "MADVISE_RACE_CONDITION"
    } else {
        "UNKNOWN_VIOLATION"
    }
}

impl MadviseAlert {
    /// No text is longer than the field that it was read from.
    pub open spec fn fits(&self) -> bool {
        self.comm@.len() <= 16
    }

    /// Whether the alert holds exactly what `data` encodes.
    pub open spec fn decodes(&self, data: Seq<u8>) -> bool {
        &&& self.pid == u32_at(data, 0)
        &&& self.tid == u32_at(data, 4)
        &&& self.count == u32_at(data, 8)
        &&& self.action_type == u32_at(data, 12)
        &&& self.comm@ == text_at(data, 16, 16)
    }

    /// The counts of lost bytes that reading `data` leaves behind.
    pub open spec fn mangled_in(data: Seq<u8>) -> Seq<usize> {
        with_mangled(Seq::empty(), raw_field(data.subrange(16, 32)))
    }

    /// The report line, in the model.
    pub open spec fn report_text(&self) -> Seq<char> {
        "Bouclier Bleu [BLOCK]: Process '"@
            + self.comm@
            + "' (PID "@
            + decimal(self.pid as nat)
            + ", TID "@
            + decimal(self.tid as nat)
            + ") neutralized for attempting ["@
            + action_text(self.action_type)
            + "] with "@
            + decimal(self.count as nat)
            + " loop iterations."@
    }

    /// The SIEM fields, in the model.
    pub open spec fn payload(&self) -> Seq<FieldView> {
        seq![
            number_view("pid"@, self.pid as u64),
            number_view("tid"@, self.tid as u64),
            number_view("count"@, self.count as u64),
            number_view("action_type"@, self.action_type as u64),
            text_view("comm"@, self.comm@),
        ]
    }

    /// Reads one record from the start of `reader`.
    pub fn read_from(reader: &mut BpfReader<'_>) -> (r: Result<Self, &'static str>)
        requires
            old(reader).wf(),
            old(reader).consumed() == 0,
            old(reader).mangled_counts() == Seq::<usize>::empty(),
        ensures
            r is Ok <==> old(reader).record().len() >= RECORD_LEN,
            r matches Ok(alert) ==> {
                &&& alert.decodes(old(reader).record())
                &&& alert.fits()
                &&& final(reader).mangled_counts() == Self::mangled_in(old(reader).record())
            },
            r matches Err(e) ==> {
                &&& e@ == undersized()
                &&& final(reader).mangled_counts() == Seq::<usize>::empty()
            },
    {
        if reader.record_len() < RECORD_LEN {
            return Err("Telemetry payload violates minimum size constraints.");
        }
        let pid = reader.read_u32()?;
        let tid = reader.read_u32()?;
        let count = reader.read_u32()?;
        let action_type = reader.read_u32()?;
        let comm = reader.read_string(16)?;
        Ok(MadviseAlert { pid, tid, count, action_type, comm })
    }

    /// Decodes one record; a record shorter than the layout is rejected.
    pub fn try_from_bytes(data: &[u8]) -> (r: Result<Self, &'static str>)
        ensures
            r is Ok <==> data@.len() >= RECORD_LEN,
            r matches Ok(alert) ==> alert.decodes(data@) && alert.fits(),
            r matches Err(e) ==> e@ == undersized(),
    {
        let mut reader = BpfReader::new(data);
        Self::read_from(&mut reader)
    }

    /// The line that tells an operator of the alert.
    pub fn report(&self) -> (r: String)
        ensures
            r@ == self.report_text(),
    {
        let mut out = "Bouclier Bleu [BLOCK]: Process '".to_owned();
        out.append(self.comm.as_str());
        out.append("' (PID ");
        push_decimal(&mut out, self.pid as u64);
        out.append(", TID ");
        push_decimal(&mut out, self.tid as u64);
        out.append(") neutralized for attempting [");
        out.append(action_label(self.action_type));
        out.append("] with ");
        push_decimal(&mut out, self.count as u64);
        out.append(" loop iterations.");
        out
    }

    /// The fields that the alert contributes to a SIEM event, in the order of the record.
    pub fn fields(&self) -> (r: Vec<Field>)
        ensures
            field_views(r@) == self.payload(),
    {
        let mut out: Vec<Field> = Vec::new();
        push_number(&mut out, "pid", self.pid as u64);
        push_number(&mut out, "tid", self.tid as u64);
        push_number(&mut out, "count", self.count as u64);
        push_number(&mut out, "action_type", self.action_type as u64);
        push_text(&mut out, "comm", self.comm.as_str());
        assert(field_views(out@) =~= self.payload());
        out
    }
}

} // verus!
