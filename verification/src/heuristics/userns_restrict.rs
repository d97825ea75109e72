//! Namespace escape monitor: its telemetry record and operator report.

use crate::fields::{field_views, number_view, push_number, push_text, text_view, Field, FieldView};
use crate::reader::{raw_field, text_at, u32_at, undersized, with_mangled, BpfReader};
use crate::text::{decimal, push_decimal};
use vstd::prelude::*;

verus! {

/// The human-readable name of the module.
pub const NAME: &'static str = "Namespace Escape Monitor";

/// The identifier of the module.
pub const SLUG: &'static str = "userns_restrict";

/// The ATT&CK techniques that the module counters.
pub const MITRE: [&'static str; 4] = ["T1611", "T1068", "T1610", "T1612"];

/// The size of a record: 4 (pid) + 4 (action_type) + 64 (target).
pub const RECORD_LEN: usize = 72;

/// Creating a user namespace.
pub const ACTION_USERNS_CREATE: u32 = 1;

/// Asking for `CAP_SYS_ADMIN`.
pub const ACTION_CAP_SYS_ADMIN: u32 = 2;

/// Mounting a physical device.
pub const ACTION_MOUNT_DEV: u32 = 3;

/// A container escape primitive used inside a sandbox.
pub struct UsernsAlert {
    /// The offending process.
    pub pid: u32,
    /// What was attempted.
    pub action_type: u32,
    /// What the attempt was aimed at.
    pub target: String,
}

/// The label of an action, in the model.
pub open spec fn action_text(action_type: u32) -> Seq<char> {
    if action_type == ACTION_USERNS_CREATE {
        "USER_NAMESPACE_CREATION"@
    } else if action_type == ACTION_CAP_SYS_ADMIN {
        "CAP_SYS_ADMIN_ACQUISITION"@
    } else if action_type == ACTION_MOUNT_DEV {
        "PHYSICAL_DEVICE_MOUNT"@
    } else {
        "UNKNOWN_VIOLATION"@
    }
}

/// The label under which an action is reported.
pub fn action_label(action_type: u32) -> (r: &'static str)
    ensures
        r@ == action_text(action_type),
{
    if action_type == ACTION_USERNS_CREATE {
        "USER_NAMESPACE_CREATION"
    } else if action_type == ACTION_CAP_SYS_ADMIN {
        "CAP_SYS_ADMIN_ACQUISITION"
    } else if action_type == ACTION_MOUNT_DEV {
        "PHYSICAL_DEVICE_MOUNT"
    } else {
        "UNKNOWN_VIOLATION"
    }
}

impl UsernsAlert {
    /// No text is longer than the field that it was read from.
    pub open spec fn fits(&self) -> bool {
        self.target@.len() <= 64
    }

    /// Whether the alert holds exactly what `data` encodes.
    pub open spec fn decodes(&self, data: Seq<u8>) -> bool {
        &&& self.pid == u32_at(data, 0)
        &&& self.action_type == u32_at(data, 4)
        &&& self.target@ == text_at(data, 8, 64)
    }

    /// The counts of lost bytes that reading `data` leaves behind.
    pub open spec fn mangled_in(data: Seq<u8>) -> Seq<usize> {
        with_mangled(Seq::empty(), raw_field(data.subrange(8, 72)))
    }

    /// The report line, in the model.
    pub open spec fn report_text(&self) -> Seq<char> {
        "Bouclier Bleu [BLOCK]: PID "@
            + decimal(self.pid as nat)
            + " attempted container escape primitive ["@
            + action_text(self.action_type)
            + "] targeting: "@
            + self.target@
            + "."@
    }

    /// The SIEM fields, in the model.
    pub open spec fn payload(&self) -> Seq<FieldView> {
        seq![
            number_view("pid"@, self.pid as u64),
            number_view("action_type"@, self.action_type as u64),
            text_view("target"@, self.target@),
        ]
    }

    /// Reads one record from the start of `reader`.
    pub fn read_from(reader: &mut BpfReader<'_>) -> (r: Result<Self, &'static str>)
        requires
            old(reader).wf(),
            old(reader).consumed() == 0,
            old(reader).mangled_counts() == Seq::<usize>::empty(),
        ensures
            r is Ok <==> old(reader).record().len() >= RECORD_LEN,
            r matches Ok(alert) ==> {
                &&& alert.decodes(old(reader).record())
                &&& alert.fits()
                &&& final(reader).mangled_counts() == Self::mangled_in(old(reader).record())
            },
            r matches Err(e) ==> {
                &&& e@ == undersized()
                &&& final(reader).mangled_counts() == Seq::<usize>::empty()
            },
    {
        if reader.record_len() < RECORD_LEN {
            return Err("Telemetry payload violates minimum size constraints.");
        }
        let pid = reader.read_u32()?;
        let action_type = reader.read_u32()?;
        let target = reader.read_string(64)?;
        Ok(UsernsAlert { pid, action_type, target })
    }

    /// Decodes one record; a record shorter than the layout is rejected.
    pub fn try_from_bytes(data: &[u8]) -> (r: Result<Self, &'static str>)
        ensures
            r is Ok <==> data@.len() >= RECORD_LEN,
            r matches Ok(alert) ==> alert.decodes(data@) && alert.fits(),
            r matches Err(e) ==> e@ == undersized(),
    {
        let mut reader = BpfReader::new(data);
        Self::read_from(&mut reader)
    }

    /// The line that tells an operator of the alert.
    pub fn report(&self) -> (r: String)
        ensures
            r@ == self.report_text(),
    {
        let mut out = "Bouclier Bleu [BLOCK]: PID ".to_owned();
        push_decimal(&mut out, self.pid as u64);
        out.append(" attempted container escape primitive [");
        out.append(action_label(self.action_type));
        out.append("] targeting: ");
        out.append(self.target.as_str());
        out.append(".");
        out
    }

    /// The fields that the alert contributes to a SIEM event, in the order of the record.
    pub fn fields(&self) -> (r: Vec<Field>)
        ensures
            field_views(r@) == self.payload(),
    {
        let mut out: Vec<Field> = Vec::new();
        push_number(&mut out, "pid", self.pid as u64);
        push_number(&mut out, "action_type", self.action_type as u64);
        push_text(&mut out, "target", self.target.as_str());
        assert(field_views(out@) =~= self.payload());
        out
    }
}

} // verus!
