//! Self-defence shield: its telemetry record and operator report.

use crate::fields::{field_views, number_view, push_number, push_text, text_view, Field, FieldView};
use crate::reader::{raw_field, text_at, u32_at, undersized, with_mangled, BpfReader};
use crate::text::{decimal, push_decimal};
use vstd::prelude::*;

verus! {

/// The human-readable name of the module.
pub const NAME: &'static str = "Self-Defense Architecture";

/// The identifier of the module.
pub const SLUG: &'static str = "shield";

/// The ATT&CK techniques that the module counters.
pub const MITRE: [&'static str; 0] = [];

/// The kernel map of the watchlist.
pub const MAP_NAME: &'static str = "protected_files";

/// The size of the watchlist map.
pub const CAPACITY: u32 = 2;

/// The files that the watchlist protects.
pub const WATCHED: [&'static str; 2] = ["/etc/bouclier-bleu/config.toml", "/usr/bin/bouclier-bleu-core"];

/// The size of a record: 4 (pid) + 4 (action_type) + 4096 (target).
pub const RECORD_LEN: usize = 4104;

/// Writing to a protected file.
pub const ACTION_FILE_TAMPER: u32 = 1;

/// An unprivileged `bpf()` call.
pub const ACTION_BPF_TAMPER: u32 = 2;

/// Reading the kernel ring buffer.
pub const ACTION_SYSLOG_LEAK: u32 = 3;

/// An attempt to tamper with the defence itself or to read the kernel log.
pub struct ShieldAlert {
    /// The offending process.
    pub pid: u32,
    /// What was attempted.
    pub action_type: u32,
    /// What the attempt was aimed at.
    pub target: String,
}

/// The label of an action, in the model.
pub open spec fn action_text(action_type: u32) -> Seq<char> {
    if action_type == ACTION_FILE_TAMPER {
        "FILE_TAMPER"@
    } else if action_type == ACTION_BPF_TAMPER {
        "BPF_TAMPER"@
    } else if action_type == ACTION_SYSLOG_LEAK {
        "SYSLOG_LEAK"@
    } else {
        "UNKNOWN_VIOLATION"@
    }
}

/// The label under which an action is reported.
pub fn action_label(action_type: u32) -> (r: &'static str)
    ensures
        r@ == action_text(action_type),
{
    if action_type == ACTION_FILE_TAMPER {
        "FILE_TAMPER"
    } else if action_type == ACTION_BPF_TAMPER {
        "BPF_TAMPER"
    } else if action_type == ACTION_SYSLOG_LEAK {
        "SYSLOG_LEAK"
    } else {
        "UNKNOWN_VIOLATION"
    }
}

impl ShieldAlert {
    /// No text is longer than the field that it was read from.
    pub open spec fn fits(&self) -> bool {
        self.target@.len() <= 4096
    }

    /// Whether the alert holds exactly what `data` encodes.
    pub open spec fn decodes(&self, data: Seq<u8>) -> bool {
        &&& self.pid == u32_at(data, 0)
        &&& self.action_type == u32_at(data, 4)
        &&& self.target@ == text_at(data, 8, 4096)
    }

    /// The counts of lost bytes that reading `data` leaves behind.
    pub open spec fn mangled_in(data: Seq<u8>) -> Seq<usize> {
        with_mangled(Seq::empty(), raw_field(data.subrange(8, 4104)))
    }

    /// The report line, in the model.
    pub open spec fn report_text(&self) -> Seq<char> {
        "Bouclier Bleu [SHIELD]: Blocked unauthorized action ["@
            + action_text(self.action_type)
            + "] by PID "@
            + decimal(self.pid as nat)
            + " on target: "@
            + self.target@
    }

    /// The SIEM fields, in the model.
    pub open spec fn payload(&self) -> Seq<FieldView> {
        seq![
            number_view("pid"@, self.pid as u64),
            number_view("action_type"@, self.action_type as u64),
            text_view("target"@, self.target@),
        ]
    }

    /// Reads one record from the start of `reader`.
    pub fn read_from(reader: &mut BpfReader<'_>) -> (r: Result<Self, &'static str>)
        requires
            old(reader).wf(),
            old(reader).consumed() == 0,
            old(reader).mangled_counts() == Seq::<usize>::empty(),
        ensures
            r is Ok <==> old(reader).record().len() >= RECORD_LEN,
            r matches Ok(alert) ==> {
                &&& alert.decodes(old(reader).record())
                &&& alert.fits()
                &&& final(reader).mangled_counts() == Self::mangled_in(old(reader).record())
            },
            r matches Err(e) ==> {
                &&& e@ == undersized()
                &&& final(reader).mangled_counts() == Seq::<usize>::empty()
            },
    {
        if reader.record_len() < RECORD_LEN {
            return Err("Telemetry payload violates minimum size constraints.");
        }
        let pid = reader.read_u32()?;
        let action_type = reader.read_u32()?;
        let target = reader.read_string(4096)?;
        Ok(ShieldAlert { pid, action_type, target })
    }

    /// Decodes one record; a record shorter than the layout is rejected.
    pub fn try_from_bytes(data: &[u8]) -> (r: Result<Self, &'static str>)
        ensures
            r is Ok <==> data@.len() >= RECORD_LEN,
            r matches Ok(alert) ==> alert.decodes(data@) && alert.fits(),
            r matches Err(e) ==> e@ == undersized(),
    {
        let mut reader = BpfReader::new(data);
        Self::read_from(&mut reader)
    }

    /// The line that tells an operator of the alert.
    pub fn report(&self) -> (r: String)
        ensures
            r@ == self.report_text(),
    {
        let mut out = "Bouclier Bleu [SHIELD]: Blocked unauthorized action [".to_owned();
        out.append(action_label(self.action_type));
        out.append("] by PID ");
        push_decimal(&mut out, self.pid as u64);
        out.append(" on target: ");
        out.append(self.target.as_str());
        out
    }

    /// The fields that the alert contributes to a SIEM event, in the order of the record.
    pub fn fields(&self) -> (r: Vec<Field>)
        ensures
            field_views(r@) == self.payload(),
    {
        let mut out: Vec<Field> = Vec::new();
        push_number(&mut out, "pid", self.pid as u64);
        push_number(&mut out, "action_type", self.action_type as u64);
        push_text(&mut out, "target", self.target.as_str());
        assert(field_views(out@) =~= self.payload());
        out
    }
}

} // verus!
