//! Ransomware rename monitor: its telemetry record and operator report.

use crate::fields::{field_views, number_view, push_number, push_text, text_view, Field, FieldView};
use crate::reader::{raw_field, text_at, u32_at, undersized, with_mangled, BpfReader};
use crate::text::{
    chars_of, decimal, law_strip_trailing_takes_the_run, push_decimal, string_of, strip_trailing,
};
use vstd::prelude::*;

verus! {

/// The human-readable name of the module.
pub const NAME: &'static str = "Ransomware Rename Entropy Monitor";

/// The identifier of the module.
pub const SLUG: &'static str = "rename_entropy";

/// The ATT&CK techniques that the module counters.
pub const MITRE: [&'static str; 1] = ["T1486"];

/// The kernel map of the watchlist.
pub const MAP_NAME: &'static str = "protected_dirs";

/// The directories that are scanned for the watchlist.
pub const ROOTS: [&'static str; 4] = ["/home", "/var", "/etc", "/opt"];

/// The smallest size of the watchlist map.
pub const MIN_CAPACITY: u32 = 8192;

/// The hidden directories that are watched all the same.
pub const ALLOW_HIDDEN: [&'static str; 6] = [".ssh", ".gnupg", ".aws", ".kube", ".docker", ".config"];

/// The size of a record: 4 (pid) + 4 (ppid) + 4096 (directory) + 256 (file name).
pub const RECORD_LEN: usize = 4360;

/// A rename that produced a highly random file name.
pub struct RenameAlert {
    /// The offending process.
    pub pid: u32,
    /// The process that spawned it.
    pub ppid: u32,
    /// The full path that the file was renamed to.
    pub full_path: String,
}

/// A directory and a file name joined by exactly one slash.
pub open spec fn joined(dir: Seq<char>, file: Seq<char>) -> Seq<char> {
    strip_trailing(dir, '/') + "/"@ + file
}

/// Joins a directory and a file name; slashes at the end of the directory are dropped.
pub fn join_path(dir: &str, file: &str) -> (r: String)
    ensures
        r@ == joined(dir@, file@),
        r@.len() <= dir@.len() + 1 + file@.len(),
{
    let chars = chars_of(dir);
    let mut end: usize = chars.len();
    assert(chars@.take(end as int) =~= dir@);
    while end > 0 && chars[end - 1] == '/'
        invariant
            end <= chars@.len(),
            strip_trailing(chars@.take(end as int), '/') == strip_trailing(dir@, '/'),
        decreases end,
    {
        assert(chars@.take(end as int).drop_last() =~= chars@.take(end - 1));
        end = end - 1;
    }
    let mut out = string_of(chars.as_slice(), 0, end);
    assert(out@ =~= chars@.take(end as int));
    out.append("/");
    out.append(file);
    proof {
        reveal_strlit("/");
    }
    out
}

impl RenameAlert {
    /// The path is no longer than the two fields that it was read from and the slash between them.
    pub open spec fn fits(&self) -> bool {
        self.full_path@.len() <= 4096 + 1 + 256
    }

    /// Whether the alert holds exactly what `data` encodes.
    pub open spec fn decodes(&self, data: Seq<u8>) -> bool {
        &&& self.pid == u32_at(data, 0)
        &&& self.ppid == u32_at(data, 4)
        &&& self.full_path@ == joined(text_at(data, 8, 4096), text_at(data, 4104, 256))
    }

    /// The counts of lost bytes that reading `data` leaves behind.
    pub open spec fn mangled_in(data: Seq<u8>) -> Seq<usize> {
        let seen1 = with_mangled(Seq::empty(), raw_field(data.subrange(8, 4104)));
        with_mangled(seen1, raw_field(data.subrange(4104, 4360)))
    }

    /// The report line, in the model.
    pub open spec fn report_text(&self) -> Seq<char> {
        "Bouclier Bleu [FATAL]: PID "@
            + decimal(self.pid as nat)
            + " triggered ransomware entropy heuristic on target: "@
            + self.full_path@
    }

    /// The SIEM fields, in the model.
    pub open spec fn payload(&self) -> Seq<FieldView> {
        seq![
            number_view("pid"@, self.pid as u64),
            number_view("ppid"@, self.ppid as u64),
            text_view("full_path"@, self.full_path@),
        ]
    }

    /// Reads one record from the start of `reader`.
    pub fn read_from(reader: &mut BpfReader<'_>) -> (r: Result<Self, &'static str>)
        requires
            old(reader).wf(),
            old(reader).consumed() == 0,
            old(reader).mangled_counts() == Seq::<usize>::empty(),
        ensures
            r is Ok <==> old(reader).record().len() >= RECORD_LEN,
            r matches Ok(alert) ==> {
                &&& alert.decodes(old(reader).record())
                &&& alert.fits()
                &&& final(reader).mangled_counts() == Self::mangled_in(old(reader).record())
            },
            r matches Err(e) ==> {
                &&& e@ == undersized()
                &&& final(reader).mangled_counts() == Seq::<usize>::empty()
            },
    {
        if reader.record_len() < RECORD_LEN {
            return Err("Telemetry payload violates minimum size constraints.");
        }
        let pid = reader.read_u32()?;
        let ppid = reader.read_u32()?;
        let dir_path = reader.read_string(4096)?;
        let file_name = reader.read_string(256)?;
        let full_path = join_path(dir_path.as_str(), file_name.as_str());
        Ok(RenameAlert { pid, ppid, full_path })
    }

    /// Decodes one record; a record shorter than the layout is rejected.
    pub fn try_from_bytes(data: &[u8]) -> (r: Result<Self, &'static str>)
        ensures
            r is Ok <==> data@.len() >= RECORD_LEN,
            r matches Ok(alert) ==> alert.decodes(data@) && alert.fits(),
            r matches Err(e) ==> e@ == undersized(),
    {
        let mut reader = BpfReader::new(data);
        Self::read_from(&mut reader)
    }

    /// The line that tells an operator of the alert.
    pub fn report(&self) -> (r: String)
        ensures
            r@ == self.report_text(),
    {
        let mut out = "Bouclier Bleu [FATAL]: PID ".to_owned();
        push_decimal(&mut out, self.pid as u64);
        out.append(" triggered ransomware entropy heuristic on target: ");
        out.append(self.full_path.as_str());
        out
    }

    /// The fields that the alert contributes to a SIEM event, in the order of the record.
    pub fn fields(&self) -> (r: Vec<Field>)
        ensures
            field_views(r@) == self.payload(),
    {
        let mut out: Vec<Field> = Vec::new();
        push_number(&mut out, "pid", self.pid as u64);
        push_number(&mut out, "ppid", self.ppid as u64);
        push_text(&mut out, "full_path", self.full_path.as_str());
        assert(field_views(out@) =~= self.payload());
        out
    }
}

/// A directory and a file name are joined by exactly one slash, however many the directory ends with.
pub proof fn law_one_slash_joins(dir: Seq<char>, slashes: Seq<char>, file: Seq<char>)
    requires
        dir.len() > 0 ==> dir.last() != '/',
        forall|i: int| 0 <= i < slashes.len() ==> #[trigger] slashes[i] == '/',
    ensures
        joined(dir + slashes, file) == dir + seq!['/'] + file,
{
    reveal_strlit("/");
    law_strip_trailing_takes_the_run(dir, '/', slashes);
    assert("/"@ =~= seq!['/']);
}

} // verus!
