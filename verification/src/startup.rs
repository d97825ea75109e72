//! What the daemon asks of its host before it starts.

use crate::text::{contains, contains_text, law_contains_means_a_part};
use vstd::prelude::*;

verus! {

/// The file that lists the active security modules of the kernel.
pub const LSM_PATH: &'static str = "/sys/kernel/security/lsm";

/// The file that holds the kernel release.
pub const RELEASE_PATH: &'static str = "/proc/sys/kernel/osrelease";

/// The lines for a daemon that is not run by root.
pub const NOT_ROOT: [&'static str; 1] = [
    "Bouclier Bleu [Fatal]: The core daemon must be executed as root (UID 0).",
];

/// The lines for a kernel that does not enforce eBPF programs.
pub const LSM_INACTIVE: [&'static str; 3] = [
    "Bouclier Bleu [Fatal]: eBPF LSM is not active on this host.",
    "      Ensure your kernel supports CONFIG_BPF_LSM=y and append:",
    "      'lsm=landlock,lockdown,yama,apparmor,bpf' to your GRUB boot parameters.",
];

/// Whether the daemon may start.
pub enum Gate {
    /// It may.
    Open,
    /// It may, though the host could not be checked; holds the line for an operator.
    Unverified(String),
    /// It may not; holds the lines for an operator.
    Shut(&'static [&'static str]),
}

/// Whether a user may run the daemon, in the model.
pub open spec fn may_run(euid: u32) -> bool {
    euid == 0
}

/// Whether a list of active security modules has eBPF programs enforced, in the model.
pub open spec fn enforces_programs(list: Seq<char>) -> bool {
    contains(list, "bpf"@)
}

/// Only root may run the daemon.
pub fn check_privilege(euid: u32) -> (r: Gate)
    ensures
        r is Open <==> may_run(euid),
        r is Open <==> euid == 0,
        r is Shut <==> euid != 0,
        r matches Gate::Shut(lines) ==> lines@ == NOT_ROOT@,
{
    if euid == 0 {
        Gate::Open
    } else {
        Gate::Shut(&NOT_ROOT)
    }
}

/// The kernel must enforce eBPF programs: they have to be among its active security modules.
/// Where the list of these cannot be read, the daemon tries all the same.
pub fn check_lsm(lsms: Result<String, String>) -> (r: Gate)
    ensures
        r is Open <==> (lsms matches Ok(list) && enforces_programs(list@)),
        r is Open <==> (lsms matches Ok(list) && contains(list@, "bpf"@)),
        r is Shut <==> (lsms matches Ok(list) && !contains(list@, "bpf"@)),
        r matches Gate::Shut(lines) ==> lines@ == LSM_INACTIVE@,
        r matches Gate::Unverified(line) ==> lsms is Err && line@
            == "Bouclier Bleu [Warning]: Could not verify active Security Modules ("@ + lsms->Err_0@
            + ")."@,
{
    match lsms {
        Ok(list) => if contains_text(list.as_str(), "bpf") {
            Gate::Open
        } else {
            Gate::Shut(&LSM_INACTIVE)
        },
        Err(error) => {
            let mut line =
                "Bouclier Bleu [Warning]: Could not verify active Security Modules (".to_owned();
            line.append(error.as_str());
            line.append(").");
            Gate::Unverified(line)
        },
    }
}

/// Every user but root is refused.
pub proof fn law_only_root_may_run(euid: u32)
    ensures
        may_run(euid) <==> !(euid > 0),
{
}

/// Wherever `bpf` stands among the active security modules, the daemon may start; where no `b`, no `p`
/// or no `f` is among their letters, it may not.
pub proof fn law_bpf_may_stand_anywhere(before: Seq<char>, after: Seq<char>, list: Seq<char>)
    ensures
        enforces_programs(before + seq!['b', 'p', 'f'] + after),
        !list.contains('b') || !list.contains('p') || !list.contains('f') ==> !enforces_programs(list),
{
    reveal_strlit("bpf");
    assert("bpf"@ =~= seq!['b', 'p', 'f']);
    law_contains_means_a_part(before + seq!['b', 'p', 'f'] + after, seq!['b', 'p', 'f']);
    law_contains_means_a_part(list, "bpf"@);
    if enforces_programs(list) {
        let (a, b) = choose|a: Seq<char>, b: Seq<char>| list == #[trigger] (a + "bpf"@ + b);
        let n = a.len() as int;
        assert(list[n] == 'b' && list[n + 1] == 'p' && list[n + 2] == 'f');
    }
}

} // verus!
