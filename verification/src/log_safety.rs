//! What reaches an operator's log: no kernel string can forge a line or drive a terminal.

use crate::catalog::{Alert, Heuristic};
use crate::heuristics::dump_restrict::DumpAlert;
use crate::heuristics::exec_block::ExecAlert;
use crate::heuristics::io_restrict::IoRestrictAlert;
use crate::heuristics::madvise_ratelimit::MadviseAlert;
use crate::heuristics::mount_secure::MountAlert;
use crate::heuristics::ptrace_block::PtraceAlert;
use crate::heuristics::rename_entropy::RenameAlert;
use crate::heuristics::shield::ShieldAlert;
use crate::heuristics::strict_wx::StrictWxAlert;
use crate::heuristics::userns_restrict::UsernsAlert;
use crate::reader::{is_printable, law_field_text_is_printable, text_at};
use crate::text::{decimal, strip_trailing};
use vstd::prelude::*;

verus! {

/// Whether a text holds printable characters only.
pub open spec fn printable(s: Seq<char>) -> bool {
    forall|i: int| 0 <= i < s.len() ==> is_printable(#[trigger] s[i])
}

broadcast proof fn lemma_joined(a: Seq<char>, b: Seq<char>)
    requires
        printable(a),
        printable(b),
    ensures
        #[trigger] printable(a + b),
{
    assert forall|i: int| 0 <= i < (a + b).len() implies is_printable(#[trigger] (a + b)[i]) by {
        if i < a.len() {
            assert(is_printable(a[i]));
        } else {
            assert(is_printable(b[i - a.len()]));
        }
    }
}

broadcast proof fn lemma_decimal(n: nat)
    ensures
        #[trigger] printable(decimal(n)),
    decreases n,
{
    if n >= 10 {
        lemma_decimal(n / 10);
    }
}

broadcast proof fn lemma_field(data: Seq<u8>, at: int, len: int)
    ensures
        #[trigger] printable(text_at(data, at, len)),
{
    law_field_text_is_printable(data.subrange(at, at + len));
}

proof fn lemma_stripped(s: Seq<char>, c: char)
    requires
        printable(s),
    ensures
        printable(strip_trailing(s, c)),
    decreases s.len(),
{
    if s.len() > 0 && s.last() == c {
        lemma_stripped(s.drop_last(), c);
    }
}

proof fn lemma_exec_block_report(alert: ExecAlert, data: Seq<u8>)
    requires
        alert.decodes(data),
    ensures
        printable(alert.report_text()),
{
    broadcast use {lemma_joined, lemma_decimal, lemma_field};

    reveal_strlit("Bouclier Bleu [BLOCK]: PID ");
    reveal_strlit(" attempted execution from protected path: ");
    assert(printable("Bouclier Bleu [BLOCK]: PID "@));
    assert(printable(" attempted execution from protected path: "@));
}

proof fn lemma_rename_entropy_report(alert: RenameAlert, data: Seq<u8>)
    requires
        alert.decodes(data),
    ensures
        printable(alert.report_text()),
{
    broadcast use {lemma_joined, lemma_decimal, lemma_field};

    reveal_strlit("Bouclier Bleu [FATAL]: PID ");
    reveal_strlit(" triggered ransomware entropy heuristic on target: ");
    reveal_strlit("/");
    assert(printable("Bouclier Bleu [FATAL]: PID "@));
    assert(printable(" triggered ransomware entropy heuristic on target: "@));
    assert(printable("/"@));
    lemma_stripped(text_at(data, 8, 4096), '/');
}

proof fn lemma_shield_report(alert: ShieldAlert, data: Seq<u8>)
    requires
        alert.decodes(data),
    ensures
        printable(alert.report_text()),
{
    broadcast use {lemma_joined, lemma_decimal, lemma_field};

    reveal_strlit("FILE_TAMPER");
    reveal_strlit("BPF_TAMPER");
    reveal_strlit("SYSLOG_LEAK");
    reveal_strlit("UNKNOWN_VIOLATION");
    reveal_strlit("Bouclier Bleu [SHIELD]: Blocked unauthorized action [");
    reveal_strlit("] by PID ");
    reveal_strlit(" on target: ");
    assert(printable("FILE_TAMPER"@));
    assert(printable("BPF_TAMPER"@));
    assert(printable("SYSLOG_LEAK"@));
    assert(printable("UNKNOWN_VIOLATION"@));
    assert(printable("Bouclier Bleu [SHIELD]: Blocked unauthorized action ["@));
    assert(printable("] by PID "@));
    assert(printable(" on target: "@));
}

proof fn lemma_mount_secure_report(alert: MountAlert, data: Seq<u8>)
    requires
        alert.decodes(data),
    ensures
        printable(alert.report_text()),
{
    broadcast use {lemma_joined, lemma_decimal, lemma_field};

    reveal_strlit("Bouclier Bleu [BLOCK]: PID ");
    reveal_strlit(" attempted insecure mount of ");
    reveal_strlit(" (");
    reveal_strlit(") at '");
    reveal_strlit("'. Enforcing MS_NOEXEC, MS_NOSUID, MS_NODEV.");
    assert(printable("Bouclier Bleu [BLOCK]: PID "@));
    assert(printable(" attempted insecure mount of "@));
    assert(printable(" ("@));
    assert(printable(") at '"@));
    assert(printable("'. Enforcing MS_NOEXEC, MS_NOSUID, MS_NODEV."@));
}

proof fn lemma_strict_wx_report(alert: StrictWxAlert, data: Seq<u8>)
    requires
        alert.decodes(data),
    ensures
        printable(alert.report_text()),
{
    broadcast use {lemma_joined, lemma_decimal, lemma_field};

    reveal_strlit("Bouclier Bleu [BLOCK]: PID ");
    reveal_strlit(" attempted shellcode injection via PROT_WRITE | PROT_EXEC on ");
    reveal_strlit(".");
    assert(printable("Bouclier Bleu [BLOCK]: PID "@));
    assert(printable(" attempted shellcode injection via PROT_WRITE | PROT_EXEC on "@));
    assert(printable("."@));
}

proof fn lemma_ptrace_block_report(alert: PtraceAlert, data: Seq<u8>)
    requires
        alert.decodes(data),
    ensures
        printable(alert.report_text()),
{
    broadcast use {lemma_joined, lemma_decimal, lemma_field};

    reveal_strlit("CREDENTIAL_DUMP");
    reveal_strlit("PROCESS_INJECTION");
    reveal_strlit("PROC_MEM_TAMPER");
    reveal_strlit("UNKNOWN_VIOLATION");
    reveal_strlit("Bouclier Bleu [BLOCK]: PID ");
    reveal_strlit(" attempted [");
    reveal_strlit("] against target '");
    reveal_strlit("' (PID ");
    reveal_strlit(").");
    assert(printable("CREDENTIAL_DUMP"@));
    assert(printable("PROCESS_INJECTION"@));
    assert(printable("PROC_MEM_TAMPER"@));
    assert(printable("UNKNOWN_VIOLATION"@));
    assert(printable("Bouclier Bleu [BLOCK]: PID "@));
    assert(printable(" attempted ["@));
    assert(printable("] against target '"@));
    assert(printable("' (PID "@));
    assert(printable(")."@));
}

proof fn lemma_dump_restrict_report(alert: DumpAlert, data: Seq<u8>)
    requires
        alert.decodes(data),
    ensures
        printable(alert.report_text()),
{
    broadcast use {lemma_joined, lemma_decimal, lemma_field};

    reveal_strlit("COREDUMP_GENERATION");
    reveal_strlit("PRCTL_DUMPABLE_TAMPER");
    reveal_strlit("PIPED_COREDUMP_HANDLER");
    reveal_strlit("UNKNOWN_VIOLATION");
    reveal_strlit("Bouclier Bleu [BLOCK]: PID ");
    reveal_strlit(" (UID ");
    reveal_strlit(") attempted [");
    reveal_strlit("] via process '");
    reveal_strlit("'.");
    assert(printable("COREDUMP_GENERATION"@));
    assert(printable("PRCTL_DUMPABLE_TAMPER"@));
    assert(printable("PIPED_COREDUMP_HANDLER"@));
    assert(printable("UNKNOWN_VIOLATION"@));
    assert(printable("Bouclier Bleu [BLOCK]: PID "@));
    assert(printable(" (UID "@));
    assert(printable(") attempted ["@));
    assert(printable("] via process '"@));
    assert(printable("'."@));
}

proof fn lemma_madvise_ratelimit_report(alert: MadviseAlert, data: Seq<u8>)
    requires
        alert.decodes(data),
    ensures
        printable(alert.report_text()),
{
    broadcast use {lemma_joined, lemma_decimal, lemma_field};

    reveal_strlit("MADVISE_RACE_CONDITION");
    reveal_strlit("UNKNOWN_VIOLATION");
    reveal_strlit("Bouclier Bleu [BLOCK]: Process '");
    reveal_strlit("' (PID ");
    reveal_strlit(", TID ");
    reveal_strlit(") neutralized for attempting [");
    reveal_strlit("] with ");
    reveal_strlit(" loop iterations.");
    assert(printable("MADVISE_RACE_CONDITION"@));
    assert(printable("UNKNOWN_VIOLATION"@));
    assert(printable("Bouclier Bleu [BLOCK]: Process '"@));
    assert(printable("' (PID "@));
    assert(printable(", TID "@));
    assert(printable(") neutralized for attempting ["@));
    assert(printable("] with "@));
    assert(printable(" loop iterations."@));
}

proof fn lemma_userns_restrict_report(alert: UsernsAlert, data: Seq<u8>)
    requires
        alert.decodes(data),
    ensures
        printable(alert.report_text()),
{
    broadcast use {lemma_joined, lemma_decimal, lemma_field};

    reveal_strlit("USER_NAMESPACE_CREATION");
    reveal_strlit("CAP_SYS_ADMIN_ACQUISITION");
    reveal_strlit("PHYSICAL_DEVICE_MOUNT");
    reveal_strlit("UNKNOWN_VIOLATION");
    reveal_strlit("Bouclier Bleu [BLOCK]: PID ");
    reveal_strlit(" attempted container escape primitive [");
    reveal_strlit("] targeting: ");
    reveal_strlit(".");
    assert(printable("USER_NAMESPACE_CREATION"@));
    assert(printable("CAP_SYS_ADMIN_ACQUISITION"@));
    assert(printable("PHYSICAL_DEVICE_MOUNT"@));
    assert(printable("UNKNOWN_VIOLATION"@));
    assert(printable("Bouclier Bleu [BLOCK]: PID "@));
    assert(printable(" attempted container escape primitive ["@));
    assert(printable("] targeting: "@));
    assert(printable("."@));
}

proof fn lemma_io_restrict_report(alert: IoRestrictAlert, data: Seq<u8>)
    requires
        alert.decodes(data),
    ensures
        printable(alert.report_text()),
{
    broadcast use {lemma_joined, lemma_decimal, lemma_field};

    reveal_strlit("ASYNC_IO_SETUP");
    reveal_strlit("ZERO_COPY_VMSPLICE");
    reveal_strlit("ZERO_COPY_SPLICE");
    reveal_strlit("UNKNOWN_IO_VIOLATION");
    reveal_strlit("Bouclier Bleu [BLOCK]: PID ");
    reveal_strlit(" attempted restricted I/O primitive [");
    reveal_strlit("] via ");
    reveal_strlit(".");
    assert(printable("ASYNC_IO_SETUP"@));
    assert(printable("ZERO_COPY_VMSPLICE"@));
    assert(printable("ZERO_COPY_SPLICE"@));
    assert(printable("UNKNOWN_IO_VIOLATION"@));
    assert(printable("Bouclier Bleu [BLOCK]: PID "@));
    assert(printable(" attempted restricted I/O primitive ["@));
    assert(printable("] via "@));
    assert(printable("."@));
}

/// The report of every alert that a kernel record yields is one printable line: whatever bytes the
/// record holds, no line break, no terminal escape and no other control character comes out.
pub proof fn law_reports_are_printable(heuristic: Heuristic, data: Seq<u8>, alert: Alert)
    requires
        alert.decodes(heuristic, data),
    ensures
        printable(alert.report_text()),
{
    match alert {
        Alert::ExecBlock(inner) => lemma_exec_block_report(inner, data),
        Alert::RenameEntropy(inner) => lemma_rename_entropy_report(inner, data),
        Alert::Shield(inner) => lemma_shield_report(inner, data),
        Alert::MountSecure(inner) => lemma_mount_secure_report(inner, data),
        Alert::StrictWx(inner) => lemma_strict_wx_report(inner, data),
        Alert::PtraceBlock(inner) => lemma_ptrace_block_report(inner, data),
        Alert::DumpRestrict(inner) => lemma_dump_restrict_report(inner, data),
        Alert::MadviseRatelimit(inner) => lemma_madvise_ratelimit_report(inner, data),
        Alert::UsernsRestrict(inner) => lemma_userns_restrict_report(inner, data),
        Alert::IoRestrict(inner) => lemma_io_restrict_report(inner, data),
    }
}

} // verus!
