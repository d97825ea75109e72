//! Strict write-xor-execute: its telemetry record and operator report.

use crate::fields::{field_views, number_view, push_number, push_text, text_view, Field, FieldView};
use crate::reader::{raw_field, text_at, u32_at, undersized, with_mangled, BpfReader};
use crate::text::{decimal, push_decimal};
use vstd::prelude::*;

verus! {

/// The human-readable name of the module.
pub const NAME: &'static str = "Strict Write XOR Execute (W^X)";

/// The identifier of the module.
pub const SLUG: &'static str = "strict_wx";

/// The ATT&CK techniques that the module counters.
pub const MITRE: [&'static str; 3] = ["T1055", "T1620", "T1027.002"];

/// The kernel map of the watchlist.
pub const MAP_NAME: &'static str = "strict_wx_binaries";

/// The extended attribute by which a binary opts in.
pub const ATTRIBUTE: &'static str = "user.bouclier.strict_wx";

/// The directories that are scanned for opted-in binaries.
pub const ROOTS: [&'static str; 5] = ["/bin", "/sbin", "/usr/bin", "/usr/sbin", "/opt"];

/// The size of a record: 4 (pid) + 16 (syscall).
pub const RECORD_LEN: usize = 20;

/// A request for memory that is writable and executable at once.
pub struct StrictWxAlert {
    /// The offending process.
    pub pid: u32,
    /// The system call that was used.
    pub syscall: String,
}

impl StrictWxAlert {
    /// No text is longer than the field that it was read from.
    pub open spec fn fits(&self) -> bool {
        self.syscall@.len() <= 16
    }

    /// Whether the alert holds exactly what `data` encodes.
    pub open spec fn decodes(&self, data: Seq<u8>) -> bool {
        &&& self.pid == u32_at(data, 0)
        &&& self.syscall@ == text_at(data, 4, 16)
    }

    /// The counts of lost bytes that reading `data` leaves behind.
    pub open spec fn mangled_in(data: Seq<u8>) -> Seq<usize> {
        with_mangled(Seq::empty(), raw_field(data.subrange(4, 20)))
    }

    /// The report line, in the model.
    pub open spec fn report_text(&self) -> Seq<char> {
        "Bouclier Bleu [BLOCK]: PID "@
            + decimal(self.pid as nat)
            + " attempted shellcode injection via PROT_WRITE | PROT_EXEC on "@
            + self.syscall@
            + "."@
    }

    /// The SIEM fields, in the model.
    pub open spec fn payload(&self) -> Seq<FieldView> {
        seq![
            number_view("pid"@, self.pid as u64),
            text_view("syscall"@, self.syscall@),
        ]
    }

    /// Reads one record from the start of `reader`.
    pub fn read_from(reader: &mut BpfReader<'_>) -> (r: Result<Self, &'static str>)
        requires
            old(reader).wf(),
            old(reader).consumed() == 0,
            old(reader).mangled_counts() == Seq::<usize>::empty(),
        ensures
            r is Ok <==> old(reader).record().len() >= RECORD_LEN,
            r matches Ok(alert) ==> {
                &&& alert.decodes(old(reader).record())
                &&& alert.fits()
                &&& final(reader).mangled_counts() == Self::mangled_in(old(reader).record())
            },
            r matches Err(e) ==> {
                &&& e@ == undersized()
                &&& final(reader).mangled_counts() == Seq::<usize>::empty()
            },
    {
        if reader.record_len() < RECORD_LEN {
            return Err("Telemetry payload violates minimum size constraints.");
        }
        let pid = reader.read_u32()?;
        let syscall = reader.read_string(16)?;
        Ok(StrictWxAlert { pid, syscall })
    }

    /// Decodes one record; a record shorter than the layout is rejected.
    pub fn try_from_bytes(data: &[u8]) -> (r: Result<Self, &'static str>)
        ensures
            r is Ok <==> data@.len() >= RECORD_LEN,
            r matches Ok(alert) ==> alert.decodes(data@) && alert.fits(),
            r matches Err(e) ==> e@ == undersized(),
    {
        let mut reader = BpfReader::new(data);
        Self::read_from(&mut reader)
    }

    /// The line that tells an operator of the alert.
    pub fn report(&self) -> (r: String)
        ensures
            r@ == self.report_text(),
    {
        let mut out = "Bouclier Bleu [BLOCK]: PID ".to_owned();
        push_decimal(&mut out, self.pid as u64);
        out.append(" attempted shellcode injection via PROT_WRITE | PROT_EXEC on ");
        out.append(self.syscall.as_str());
        out.append(".");
        out
    }

    /// The fields that the alert contributes to a SIEM event, in the order of the record.
    pub fn fields(&self) -> (r: Vec<Field>)
        ensures
            field_views(r@) == self.payload(),
    {
        let mut out: Vec<Field> = Vec::new();
        push_number(&mut out, "pid", self.pid as u64);
        push_text(&mut out, "syscall", self.syscall.as_str());
        assert(field_views(out@) =~= self.payload());
        out
    }
}

} // verus!
