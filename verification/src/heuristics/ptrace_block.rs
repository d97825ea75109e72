//! Process injection and credential dumping prevention: its telemetry record and operator report.

use crate::fields::{field_views, number_view, push_number, push_text, text_view, Field, FieldView};
use crate::reader::{raw_field, text_at, u32_at, undersized, with_mangled, BpfReader};
use crate::text::{decimal, push_decimal};
use vstd::prelude::*;

verus! {

/// The human-readable name of the module.
pub const NAME: &'static str = "Process Injection Prevention";

/// The identifier of the module.
pub const SLUG: &'static str = "ptrace_block";

/// The ATT&CK techniques that the module counters.
pub const MITRE: [&'static str; 3] = ["T1055", "T1003.008", "T1068"];

/// The kernel map of the watchlist.
pub const MAP_NAME: &'static str = "protected_processes";

/// The size of the watchlist map.
pub const CAPACITY: u32 = 256;

/// The files that the watchlist protects.
pub const WATCHED: [&'static str; 25] = [
    "/usr/sbin/sshd",
    "/usr/bin/sshd",
    "/usr/sbin/sshd-session",
    "/usr/bin/sshd-session",
    "/usr/bin/passwd",
    "/usr/bin/su",
    "/usr/bin/sudo",
    "/sbin/pam_timestamp_check",
    "/usr/sbin/pam_timestamp_check",
    "/sbin/unix_chkpwd",
    "/usr/sbin/unix_chkpwd",
    "/usr/sbin/sssd",
    "/usr/bin/sssd",
    "/usr/lib/systemd/systemd-logind",
    "/usr/lib/polkit-1/polkitd",
    "/usr/libexec/polkit-1/polkitd",
    "/usr/bin/gnome-keyring-daemon",
    "/usr/bin/kwalletd5",
    "/usr/bin/gpg-agent",
    "/usr/sbin/gdm3",
    "/usr/sbin/gdm",
    "/usr/bin/gdm",
    "/usr/sbin/lightdm",
    "/usr/bin/lightdm",
    "/usr/bin/sddm",
];

/// The size of a record: 4 (pid) + 4 (target_pid) + 4 (action_type) + 16 (target_comm).
pub const RECORD_LEN: usize = 28;

/// Reading the memory of an authentication daemon.
pub const ACTION_CRED_DUMP: u32 = 1;

/// Attaching to a foreign process.
pub const ACTION_INJECTION: u32 = 2;

/// Writing to `/proc/*/mem`.
pub const ACTION_PROC_MEM: u32 = 3;

/// An attempt to read or to alter the memory of another process.
pub struct PtraceAlert {
    /// The offending process.
    pub pid: u32,
    /// The process that was aimed at.
    pub target_pid: u32,
    /// What was attempted.
    pub action_type: u32,
    /// The name of that process.
    pub target_comm: String,
}

/// The label of an action, in the model.
pub open spec fn action_text(action_type: u32) -> Seq<char> {
    if action_type == ACTION_CRED_DUMP {
        "CREDENTIAL_DUMP"@
    } else if action_type == ACTION_INJECTION {
        "PROCESS_INJECTION"@
    } else if action_type == ACTION_PROC_MEM {
        "PROC_MEM_TAMPER"@
    } else {
        "UNKNOWN_VIOLATION"@
    }
}

/// The label under which an action is reported.
pub fn action_label(action_type: u32) -> (r: &'static str)
    ensures
        r@ == action_text(action_type),
{
    if action_type == ACTION_CRED_DUMP {
        "CREDENTIAL_DUMP"
    } else if action_type == ACTION_INJECTION {
        "PROCESS_INJECTION"
    } else if action_type == ACTION_PROC_MEM {
        "PROC_MEM_TAMPER"
    } else {
        "UNKNOWN_VIOLATION"
    }
}

impl PtraceAlert {
    /// No text is longer than the field that it was read from.
    pub open spec fn fits(&self) -> bool {
        self.target_comm@.len() <= 16
    }

    /// Whether the alert holds exactly what `data` encodes.
    pub open spec fn decodes(&self, data: Seq<u8>) -> bool {
        &&& self.pid == u32_at(data, 0)
        &&& self.target_pid == u32_at(data, 4)
        &&& self.action_type == u32_at(data, 8)
        &&& self.target_comm@ == text_at(data, 12, 16)
    }

    /// The counts of lost bytes that reading `data` leaves behind.
    pub open spec fn mangled_in(data: Seq<u8>) -> Seq<usize> {
        with_mangled(Seq::empty(), raw_field(data.subrange(12, 28)))
    }

    /// The report line, in the model.
    pub open spec fn report_text(&self) -> Seq<char> {
        "Bouclier Bleu [BLOCK]: PID "@
            + decimal(self.pid as nat)
            + " attempted ["@
            + action_text(self.action_type)
            + "] against target '"@
            + self.target_comm@
            + "' (PID "@
            + decimal(self.target_pid as nat)
            + ")."@
    }

    /// The SIEM fields, in the model.
    pub open spec fn payload(&self) -> Seq<FieldView> {
        seq![
            number_view("pid"@, self.pid as u64),
            number_view("target_pid"@, self.target_pid as u64),
            number_view("action_type"@, self.action_type as u64),
            text_view("target_comm"@, self.target_comm@),
        ]
    }

    /// Reads one record from the start of `reader`.
    pub fn read_from(reader: &mut BpfReader<'_>) -> (r: Result<Self, &'static str>)
        requires
            old(reader).wf(),
            old(reader).consumed() == 0,
            old(reader).mangled_counts() == Seq::<usize>::empty(),
        ensures
            r is Ok <==> old(reader).record().len() >= RECORD_LEN,
            r matches Ok(alert) ==> {
                &&& alert.decodes(old(reader).record())
                &&& alert.fits()
                &&& final(reader).mangled_counts() == Self::mangled_in(old(reader).record())
            },
            r matches Err(e) ==> {
                &&& e@ == undersized()
                &&& final(reader).mangled_counts() == Seq::<usize>::empty()
            },
    {
        if reader.record_len() < RECORD_LEN {
            return Err("Telemetry payload violates minimum size constraints.");
        }
        let pid = reader.read_u32()?;
        let target_pid = reader.read_u32()?;
        let action_type = reader.read_u32()?;
        let target_comm = reader.read_string(16)?;
        Ok(PtraceAlert { pid, target_pid, action_type, target_comm })
    }

    /// Decodes one record; a record shorter than the layout is rejected.
    pub fn try_from_bytes(data: &[u8]) -> (r: Result<Self, &'static str>)
        ensures
            r is Ok <==> data@.len() >= RECORD_LEN,
            r matches Ok(alert) ==> alert.decodes(data@) && alert.fits(),
            r matches Err(e) ==> e@ == undersized(),
    {
        let mut reader = BpfReader::new(data);
        Self::read_from(&mut reader)
    }

    /// The line that tells an operator of the alert.
    pub fn report(&self) -> (r: String)
        ensures
            r@ == self.report_text(),
    {
        let mut out = "Bouclier Bleu [BLOCK]: PID ".to_owned();
        push_decimal(&mut out, self.pid as u64);
        out.append(" attempted [");
        out.append(action_label(self.action_type));
        out.append("] against target '");
        out.append(self.target_comm.as_str());
        out.append("' (PID ");
        push_decimal(&mut out, self.target_pid as u64);
        out.append(").");
        out
    }

    /// The fields that the alert contributes to a SIEM event, in the order of the record.
    pub fn fields(&self) -> (r: Vec<Field>)
        ensures
            field_views(r@) == self.payload(),
    {
        let mut out: Vec<Field> = Vec::new();
        push_number(&mut out, "pid", self.pid as u64);
        push_number(&mut out, "target_pid", self.target_pid as u64);
        push_number(&mut out, "action_type", self.action_type as u64);
        push_text(&mut out, "target_comm", self.target_comm.as_str());
        assert(field_views(out@) =~= self.payload());
        out
    }
}

} // verus!
