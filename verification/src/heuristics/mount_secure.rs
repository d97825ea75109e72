//! Removable media neutralizer: its telemetry record and operator report.

use crate::fields::{field_views, number_view, push_number, push_text, text_view, Field, FieldView};
use crate::reader::{raw_field, text_at, u32_at, undersized, with_mangled, BpfReader};
use crate::text::{decimal, push_decimal};
use vstd::prelude::*;

verus! {

/// The human-readable name of the module.
pub const NAME: &'static str = "Removable Media Neutralizer";

/// The identifier of the module.
pub const SLUG: &'static str = "mount_secure";

/// The ATT&CK techniques that the module counters.
pub const MITRE: [&'static str; 0] = [];

/// The size of a record: 4 (pid) + 256 (dev_name) + 64 (fs_type) + 512 (mount_point).
pub const RECORD_LEN: usize = 836;

/// An attempt to mount removable media without the hardening flags.
pub struct MountAlert {
    /// The offending process.
    pub pid: u32,
    /// The device that was to be mounted.
    pub dev_name: String,
    /// Its filesystem type.
    pub fs_type: String,
    /// Where it was to be mounted.
    pub mount_point: String,
}

impl MountAlert {
    /// No text is longer than the field that it was read from.
    pub open spec fn fits(&self) -> bool {
        &&& self.dev_name@.len() <= 256
        &&& self.fs_type@.len() <= 64
        &&& self.mount_point@.len() <= 512
    }

    /// Whether the alert holds exactly what `data` encodes.
    pub open spec fn decodes(&self, data: Seq<u8>) -> bool {
        &&& self.pid == u32_at(data, 0)
        &&& self.dev_name@ == text_at(data, 4, 256)
        &&& self.fs_type@ == text_at(data, 260, 64)
        &&& self.mount_point@ == text_at(data, 324, 512)
    }

    /// The counts of lost bytes that reading `data` leaves behind.
    pub open spec fn mangled_in(data: Seq<u8>) -> Seq<usize> {
        let seen1 = with_mangled(Seq::empty(), raw_field(data.subrange(4, 260)));
        let seen2 = with_mangled(seen1, raw_field(data.subrange(260, 324)));
        with_mangled(seen2, raw_field(data.subrange(324, 836)))
    }

    /// The report line, in the model.
    pub open spec fn report_text(&self) -> Seq<char> {
        "Bouclier Bleu [BLOCK]: PID "@
            + decimal(self.pid as nat)
            + " attempted insecure mount of "@
            + self.dev_name@
            + " ("@
            + self.fs_type@
            + ") at '"@
            + self.mount_point@
            + "'. Enforcing MS_NOEXEC, MS_NOSUID, MS_NODEV."@
    }

    /// The SIEM fields, in the model.
    pub open spec fn payload(&self) -> Seq<FieldView> {
        seq![
            number_view("pid"@, self.pid as u64),
            text_view("dev_name"@, self.dev_name@),
            text_view("fs_type"@, self.fs_type@),
            text_view("mount_point"@, self.mount_point@),
        ]
    }

    /// Reads one record from the start of `reader`.
    pub fn read_from(reader: &mut BpfReader<'_>) -> (r: Result<Self, &'static str>)
        requires
            old(reader).wf(),
            old(reader).consumed() == 0,
            old(reader).mangled_counts() == Seq::<usize>::empty(),
        ensures
            r is Ok <==> old(reader).record().len() >= RECORD_LEN,
            r matches Ok(alert) ==> {
                &&& alert.decodes(old(reader).record())
                &&& alert.fits()
                &&& final(reader).mangled_counts() == Self::mangled_in(old(reader).record())
            },
            r matches Err(e) ==> {
                &&& e@ == undersized()
                &&& final(reader).mangled_counts() == Seq::<usize>::empty()
            },
    {
        if reader.record_len() < RECORD_LEN {
            return Err("Telemetry payload violates minimum size constraints.");
        }
        let pid = reader.read_u32()?;
        let dev_name = reader.read_string(256)?;
        let fs_type = reader.read_string(64)?;
        let mount_point = reader.read_string(512)?;
        Ok(MountAlert { pid, dev_name, fs_type, mount_point })
    }

    /// Decodes one record; a record shorter than the layout is rejected.
    pub fn try_from_bytes(data: &[u8]) -> (r: Result<Self, &'static str>)
        ensures
            r is Ok <==> data@.len() >= RECORD_LEN,
            r matches Ok(alert) ==> alert.decodes(data@) && alert.fits(),
            r matches Err(e) ==> e@ == undersized(),
    {
        let mut reader = BpfReader::new(data);
        Self::read_from(&mut reader)
    }

    /// The line that tells an operator of the alert.
    pub fn report(&self) -> (r: String)
        ensures
            r@ == self.report_text(),
    {
        let mut out = "Bouclier Bleu [BLOCK]: PID ".to_owned();
        push_decimal(&mut out, self.pid as u64);
        out.append(" attempted insecure mount of ");
        out.append(self.dev_name.as_str());
        out.append(" (");
        out.append(self.fs_type.as_str());
        out.append(") at '");
        out.append(self.mount_point.as_str());
        out.append("'. Enforcing MS_NOEXEC, MS_NOSUID, MS_NODEV.");
        out
    }

    /// The fields that the alert contributes to a SIEM event, in the order of the record.
    pub fn fields(&self) -> (r: Vec<Field>)
        ensures
            field_views(r@) == self.payload(),
    {
        let mut out: Vec<Field> = Vec::new();
        push_number(&mut out, "pid", self.pid as u64);
        push_text(&mut out, "dev_name", self.dev_name.as_str());
        push_text(&mut out, "fs_type", self.fs_type.as_str());
        push_text(&mut out, "mount_point", self.mount_point.as_str());
        assert(field_views(out@) =~= self.payload());
        out
    }
}

} // verus!
