//! Directories that only root may enter: validation and remediation.
//!
//! A directory that somebody else prepared is not repaired but wiped and rebuilt. The caller
//! performs each action on the file system and reports what came of it; the decisions are here.

use crate::text::{concat, contains, law_contains_means_a_part};
use vstd::prelude::*;

verus! {

/// The permissions of a secure directory.
pub const DIR_MODE: u32 = 0o700;

/// The permission bits of a file mode.
pub const PERMISSION_BITS: u32 = 0o777;

/// The two directories that the daemon secures.
#[derive(Clone, Copy, PartialEq, Eq, Structural)]
pub enum Purpose {
    /// The directory of the SIEM log.
    Log,
    /// The directory of the control socket.
    Control,
}

/// What the file system says about a path.
#[derive(Clone, Copy)]
pub struct DirMeta {
    /// Whether it is a directory.
    pub is_dir: bool,
    /// Whether it is a regular file.
    pub is_file: bool,
    /// Whether it is a symbolic link.
    pub is_symlink: bool,
    /// The owner.
    pub uid: u32,
    /// The file mode.
    pub mode: u32,
}

/// What came of the last action.
pub enum DirEvent {
    /// The directory was created or was there already; or the error.
    Created(Result<(), String>),
    /// The metadata; none where they could not be read.
    Inspected(Option<DirMeta>),
    /// What stood at the path was removed; or the error.
    Removed(Result<(), String>),
    /// The directory was created anew; or the error.
    Rebuilt(Result<(), String>),
}

/// What to do next.
#[derive(Clone, Copy, PartialEq, Eq, Structural)]
pub enum DirAction {
    /// Create the directory and its parents with `DIR_MODE`.
    Create,
    /// Read the metadata of the path.
    Inspect,
    /// Remove the file or link at the path.
    RemoveFile,
    /// Remove the directory at the path and all that is in it.
    RemoveTree,
    /// Create the directory anew with `DIR_MODE`.
    Rebuild,
    /// The directory is secure.
    Ready,
    /// The directory cannot be secured.
    GiveUp,
}

/// Whether the metadata are those of a directory that only root may enter.
pub open spec fn is_secure(purpose: Purpose, meta: DirMeta) -> bool {
    &&& match purpose {
        Purpose::Log => meta.is_dir,
        Purpose::Control => !meta.is_symlink,
    }
    &&& meta.uid == 0
    &&& meta.mode & PERMISSION_BITS == DIR_MODE
}

/// Whether what stands at the path is removed as a file.
pub open spec fn removed_as_file(purpose: Purpose, meta: DirMeta) -> bool {
    match purpose {
        Purpose::Log => !meta.is_dir,
        Purpose::Control => meta.is_symlink || meta.is_file,
    }
}

/// The action that follows an event, in the model. A log directory that cannot be created is
/// still inspected: it may be there already.
pub open spec fn action_after(purpose: Purpose, event: DirEvent) -> DirAction {
    match event {
        DirEvent::Created(Ok(_)) => DirAction::Inspect,
        DirEvent::Created(Err(_)) => match purpose {
            Purpose::Log => DirAction::Inspect,
            Purpose::Control => DirAction::GiveUp,
        },
        DirEvent::Inspected(None) => DirAction::GiveUp,
        DirEvent::Inspected(Some(meta)) => if is_secure(purpose, meta) {
            DirAction::Ready
        } else if removed_as_file(purpose, meta) {
            DirAction::RemoveFile
        } else {
            DirAction::RemoveTree
        },
        DirEvent::Removed(Ok(_)) => DirAction::Rebuild,
        DirEvent::Removed(Err(_)) => DirAction::GiveUp,
        DirEvent::Rebuilt(Ok(_)) => DirAction::Ready,
        DirEvent::Rebuilt(Err(_)) => DirAction::GiveUp,
    }
}

/// The line for an operator that an event calls for, in the model; empty where there is none.
pub open spec fn notice_after(
    purpose: Purpose,
    path: Seq<char>,
    wiped_as_file: bool,
    event: DirEvent,
) -> Seq<char> {
    match (purpose, event) {
        (Purpose::Log, DirEvent::Created(Err(e))) =>
            "Bouclier Bleu [Warning]: Failed to securely create log directory: "@ + e@,
        (Purpose::Control, DirEvent::Created(Err(e))) =>
            "FATAL: Failed to construct secure IPC directory: "@ + e@,
        (Purpose::Log, DirEvent::Inspected(None)) =>
            "Bouclier Bleu [CRITICAL]: Failed to verify log directory metadata. Sinking telemetry to fallback."@,
        (Purpose::Control, DirEvent::Inspected(None)) =>
            "FATAL: Failed to verify IPC directory metadata."@,
        (_, DirEvent::Inspected(Some(meta))) => if is_secure(purpose, meta) {
            Seq::empty()
        } else {
            "Bouclier Bleu [WARNING]: "@ + match purpose {
                Purpose::Log => "Log"@,
                Purpose::Control => "IPC"@,
            } + " directory "@ + path
                + " has insecure permissions (Potential Pre-Staging Attack). Auto-remediating..."@
        },
        (Purpose::Log, DirEvent::Removed(Err(e))) =>
            "Bouclier Bleu [CRITICAL]: Failed to wipe compromised log directory: "@ + e@
                + ". Sinking telemetry to fallback."@,
        (Purpose::Control, DirEvent::Removed(Err(e))) => if wiped_as_file {
            "FATAL: Failed to remove compromised symlink/file: "@ + e@
        } else {
            "FATAL: Failed to wipe compromised IPC directory: "@ + e@
        },
        (Purpose::Log, DirEvent::Rebuilt(Err(e))) =>
            "Bouclier Bleu [CRITICAL]: Failed to recreate secure log directory: "@ + e@
                + ". Sinking telemetry to fallback."@,
        (Purpose::Control, DirEvent::Rebuilt(Err(e))) =>
            "FATAL: Failed to recreate secure IPC directory post-remediation: "@ + e@,
        (Purpose::Log, DirEvent::Rebuilt(Ok(_))) =>
            "Bouclier Bleu [INFO]: Log directory securely rebuilt."@,
        (Purpose::Control, DirEvent::Rebuilt(Ok(_))) =>
            "Bouclier Bleu [INFO]: IPC directory securely rebuilt."@,
        _ => Seq::empty(),
    }
}

/// Tests metadata for a directory that only root may enter.
pub fn secure_meta(purpose: Purpose, meta: DirMeta) -> (r: bool)
    ensures
        r == is_secure(purpose, meta),
{
    let right_type = match purpose {
        Purpose::Log => meta.is_dir,
        Purpose::Control => !meta.is_symlink,
    };
    right_type && meta.uid == 0 && meta.mode & PERMISSION_BITS == DIR_MODE
}

/// A walk from an unknown path to a secure directory.
pub struct SecureDirectory {
    purpose: Purpose,
    path: String,
    wiping_file: bool,
}

impl SecureDirectory {
    /// The directory's purpose.
    pub closed spec fn serves(&self) -> Purpose {
        self.purpose
    }

    /// The path.
    pub closed spec fn location(&self) -> Seq<char> {
        self.path@
    }

    /// Whether the last removal that was asked for was that of a file.
    pub closed spec fn wipes_file(&self) -> bool {
        self.wiping_file
    }

    /// Starts the walk; the first action is to create the directory.
    pub fn new(purpose: Purpose, path: &str) -> (r: (Self, DirAction))
        ensures
            r.0.serves() == purpose,
            r.0.location() == path@,
            !r.0.wipes_file(),
            r.1 == DirAction::Create,
    {
        (SecureDirectory { purpose, path: path.to_owned(), wiping_file: false }, DirAction::Create)
    }

    /// Takes what came of the last action; gives the next action and the line for an operator.
    pub fn step(&mut self, event: DirEvent) -> (r: (DirAction, String))
        ensures
            final(self).serves() == old(self).serves(),
            final(self).location() == old(self).location(),
            r.0 == action_after(old(self).serves(), event),
            r.1@ == notice_after(
                old(self).serves(),
                old(self).location(),
                old(self).wipes_file(),
                event,
            ),
            event is Inspected ==> final(self).wipes_file() == (r.0 == DirAction::RemoveFile),
            !(event is Inspected) ==> final(self).wipes_file() == old(self).wipes_file(),
    {
        match event {
            DirEvent::Created(Ok(_)) => (DirAction::Inspect, String::new()),
            DirEvent::Created(Err(e)) => match self.purpose {
                Purpose::Log => (
                    DirAction::Inspect,
                    concat(
                        "Bouclier Bleu [Warning]: Failed to securely create log directory: ",
                        e.as_str(),
                    ),
                ),
                Purpose::Control => (
                    DirAction::GiveUp,
                    concat("FATAL: Failed to construct secure IPC directory: ", e.as_str()),
                ),
            },
            DirEvent::Inspected(None) => {
                self.wiping_file = false;
                match self.purpose {
                    Purpose::Log => (
                        DirAction::GiveUp,
                        "Bouclier Bleu [CRITICAL]: Failed to verify log directory metadata. Sinking telemetry to fallback.".to_owned(),
                    ),
                    Purpose::Control => (
                        DirAction::GiveUp,
                        "FATAL: Failed to verify IPC directory metadata.".to_owned(),
                    ),
                }
            },
            DirEvent::Inspected(Some(meta)) => self.judge(meta),
            DirEvent::Removed(Ok(_)) => (DirAction::Rebuild, String::new()),
            DirEvent::Removed(Err(e)) => (
                DirAction::GiveUp,
                match self.purpose {
                    Purpose::Log => {
                        let mut out = concat(
                            "Bouclier Bleu [CRITICAL]: Failed to wipe compromised log directory: ",
                            e.as_str(),
                        );
                        out.append(". Sinking telemetry to fallback.");
                        out
                    },
                    Purpose::Control => if self.wiping_file {
                        concat("FATAL: Failed to remove compromised symlink/file: ", e.as_str())
                    } else {
                        concat("FATAL: Failed to wipe compromised IPC directory: ", e.as_str())
                    },
                },
            ),
            DirEvent::Rebuilt(Ok(_)) => (
                DirAction::Ready,
                match self.purpose {
                    Purpose::Log =>
                        "Bouclier Bleu [INFO]: Log directory securely rebuilt.".to_owned(),
                    Purpose::Control =>
                        "Bouclier Bleu [INFO]: IPC directory securely rebuilt.".to_owned(),
                },
            ),
            DirEvent::Rebuilt(Err(e)) => (
                DirAction::GiveUp,
                match self.purpose {
                    Purpose::Log => {
                        let mut out = concat(
                            "Bouclier Bleu [CRITICAL]: Failed to recreate secure log directory: ",
                            e.as_str(),
                        );
                        out.append(". Sinking telemetry to fallback.");
                        out
                    },
                    Purpose::Control => concat(
                        "FATAL: Failed to recreate secure IPC directory post-remediation: ",
                        e.as_str(),
                    ),
                },
            ),
        }
    }

    /// Decides on the metadata of the path.
    fn judge(&mut self, meta: DirMeta) -> (r: (DirAction, String))
        ensures
            final(self).serves() == old(self).serves(),
            final(self).location() == old(self).location(),
            r.0 == action_after(old(self).serves(), DirEvent::Inspected(Some(meta))),
            r.1@ == notice_after(
                old(self).serves(),
                old(self).location(),
                old(self).wipes_file(),
                DirEvent::Inspected(Some(meta)),
            ),
            final(self).wipes_file() == (r.0 == DirAction::RemoveFile),
    {
        if secure_meta(self.purpose, meta) {
            self.wiping_file = false;
            return (DirAction::Ready, String::new());
        }
        let mut out = "Bouclier Bleu [WARNING]: ".to_owned();
        match self.purpose {
            Purpose::Log => {
                out.append("Log");
                self.wiping_file = !meta.is_dir;
            },
            Purpose::Control => {
                out.append("IPC");
                self.wiping_file = meta.is_symlink || meta.is_file;
            },
        }
        out.append(" directory ");
        out.append(self.path.as_str());
        out.append(" has insecure permissions (Potential Pre-Staging Attack). Auto-remediating...");
        if self.wiping_file {
            (DirAction::RemoveFile, out)
        } else {
            (DirAction::RemoveTree, out)
        }
    }
}

/// Whether `actions` is what the walk asks for and `events` is what came of each action, in turn.
pub open spec fn is_walk(purpose: Purpose, actions: Seq<DirAction>, events: Seq<DirEvent>) -> bool {
    &&& actions.len() == events.len() + 1
    &&& actions[0] == DirAction::Create
    &&& forall|i: int|
        0 <= i < events.len() ==> {
            &&& answers(#[trigger] events[i], actions[i])
            &&& actions[i + 1] == action_after(purpose, events[i])
        }
}

/// Whether an event reports on an action.
pub open spec fn answers(event: DirEvent, action: DirAction) -> bool {
    match action {
        DirAction::Create => event is Created,
        DirAction::Inspect => event is Inspected,
        DirAction::RemoveFile | DirAction::RemoveTree => event is Removed,
        DirAction::Rebuild => event is Rebuilt,
        DirAction::Ready | DirAction::GiveUp => false,
    }
}

/// A directory is only trusted when its metadata were seen to be secure, or when it was removed
/// and created anew with root-only permissions.
pub proof fn law_trust_needs_proof(purpose: Purpose, actions: Seq<DirAction>, events: Seq<DirEvent>)
    requires
        is_walk(purpose, actions, events),
        actions.last() == DirAction::Ready,
    ensures
        events.len() >= 2,
        ({
            ||| events.last() matches DirEvent::Inspected(Some(meta)) && is_secure(purpose, meta)
            ||| {
                &&& events.len() >= 4
                &&& events[events.len() - 3] matches DirEvent::Inspected(Some(meta))
                    && !is_secure(purpose, meta)
                &&& events[events.len() - 2] matches DirEvent::Removed(Ok(_))
                &&& events.last() matches DirEvent::Rebuilt(Ok(_))
            }
        }),
{
    let n = events.len() as int;
    assert(answers(events[n - 1], actions[n - 1]));
    assert(answers(events[n - 2], actions[n - 2]));
    if events[n - 1] is Rebuilt {
        assert(answers(events[n - 3], actions[n - 3]));
        assert(answers(events[n - 4], actions[n - 4]));
    }
}

/// The walk always ends: no more than four actions are ever asked for.
pub proof fn law_walk_is_short(purpose: Purpose, actions: Seq<DirAction>, events: Seq<DirEvent>)
    requires
        is_walk(purpose, actions, events),
    ensures
        events.len() <= 4,
{
    if events.len() > 4 {
        assert(answers(events[0], actions[0]));
        assert(answers(events[1], actions[1]));
        assert(answers(events[2], actions[2]));
        assert(answers(events[3], actions[3]));
        assert(answers(events[4], actions[4]));
    }
}

/// What an inspection leads to, by the metadata alone. A directory is trusted exactly if root owns it
/// and its permissions are those of root alone, and if it is a directory where the log goes, or no
/// link where the control socket goes. Anything else is removed: as a file where it is no directory,
/// or, for the control socket, where it is a link or a file; with all that is in it otherwise.
pub proof fn law_inspection_decides(purpose: Purpose, meta: DirMeta)
    ensures
        ({
            let action = action_after(purpose, DirEvent::Inspected(Some(meta)));
            let root_only = meta.uid == 0 && meta.mode & 0o777 == 0o700;
            match purpose {
                Purpose::Log => {
                    &&& action == DirAction::Ready <==> root_only && meta.is_dir
                    &&& action == DirAction::RemoveFile <==> !meta.is_dir
                    &&& action == DirAction::RemoveTree <==> meta.is_dir && !root_only
                },
                Purpose::Control => {
                    &&& action == DirAction::Ready <==> root_only && !meta.is_symlink
                    &&& action == DirAction::RemoveFile <==> meta.is_symlink || (meta.is_file
                        && !root_only)
                    &&& action == DirAction::RemoveTree <==> !meta.is_symlink && !meta.is_file
                        && !root_only
                },
            }
        }),
{
}

/// Permissions that let anybody but the owner in, or keep the owner out, are never trusted, whatever
/// else the mode holds.
pub proof fn law_open_permissions_are_not_trusted(purpose: Purpose, meta: DirMeta)
    requires
        meta.mode & 0o077 != 0 || meta.mode & 0o700 != 0o700,
    ensures
        action_after(purpose, DirEvent::Inspected(Some(meta))) != DirAction::Ready,
{
    let mode = meta.mode;
    assert(mode & 0o777 == 0o700 ==> mode & 0o077 == 0 && mode & 0o700 == 0o700) by (bit_vector);
}

/// A walk is given up exactly over a step that failed, but for the creation of a log directory, which
/// may be there already; every other step leads on.
pub proof fn law_only_a_failure_gives_up(
    purpose: Purpose,
    actions: Seq<DirAction>,
    events: Seq<DirEvent>,
)
    requires
        is_walk(purpose, actions, events),
        events.len() > 0,
    ensures
        actions.last() == DirAction::GiveUp <==> match events.last() {
            DirEvent::Created(created) => created is Err && purpose == Purpose::Control,
            DirEvent::Inspected(meta) => meta is None,
            DirEvent::Removed(removed) => removed is Err,
            DirEvent::Rebuilt(rebuilt) => rebuilt is Err,
        },
        events.last() matches DirEvent::Removed(Ok(_)) ==> actions.last() == DirAction::Rebuild,
        events.last() matches DirEvent::Rebuilt(Ok(_)) ==> actions.last() == DirAction::Ready,
        events.last() matches DirEvent::Created(Ok(_)) ==> actions.last() == DirAction::Inspect,
        events.last() is Created && purpose == Purpose::Log ==> actions.last()
            == DirAction::Inspect,
{
    let n = events.len() as int;
    assert(answers(events[n - 1], actions[n - 1]));
}

/// An operator is told of every step that failed, with the error in full, of every insecure directory,
/// with its path in full, and of every directory that was rebuilt; of nothing else.
pub proof fn law_operator_is_told(
    purpose: Purpose,
    path: Seq<char>,
    wiped_as_file: bool,
    event: DirEvent,
)
    ensures
        ({
            let notice = notice_after(purpose, path, wiped_as_file, event);
            match event {
                DirEvent::Created(Err(e)) | DirEvent::Removed(Err(e)) | DirEvent::Rebuilt(Err(e)) => {
                    &&& contains(notice, e@)
                    &&& notice.len() > e@.len()
                },
                DirEvent::Inspected(None) | DirEvent::Rebuilt(Ok(_)) => notice.len() > 0,
                DirEvent::Inspected(Some(meta)) => {
                    &&& action_after(purpose, event) != DirAction::Ready ==> contains(notice, path)
                        && notice.len() > path.len()
                    &&& action_after(purpose, event) == DirAction::Ready ==> notice.len() == 0
                },
                DirEvent::Created(Ok(_)) | DirEvent::Removed(Ok(_)) => notice.len() == 0,
            }
        }),
{
    let notice = notice_after(purpose, path, wiped_as_file, event);
    reveal_strlit("Bouclier Bleu [Warning]: Failed to securely create log directory: ");
    reveal_strlit("FATAL: Failed to construct secure IPC directory: ");
    reveal_strlit("Bouclier Bleu [CRITICAL]: Failed to verify log directory metadata. Sinking telemetry to fallback.");
    reveal_strlit("FATAL: Failed to verify IPC directory metadata.");
    reveal_strlit("Bouclier Bleu [WARNING]: ");
    reveal_strlit("Log");
    reveal_strlit("IPC");
    reveal_strlit(" directory ");
    reveal_strlit("Bouclier Bleu [CRITICAL]: Failed to wipe compromised log directory: ");
    reveal_strlit("FATAL: Failed to remove compromised symlink/file: ");
    reveal_strlit("FATAL: Failed to wipe compromised IPC directory: ");
    reveal_strlit("Bouclier Bleu [CRITICAL]: Failed to recreate secure log directory: ");
    reveal_strlit("FATAL: Failed to recreate secure IPC directory post-remediation: ");
    reveal_strlit("Bouclier Bleu [INFO]: Log directory securely rebuilt.");
    reveal_strlit("Bouclier Bleu [INFO]: IPC directory securely rebuilt.");
    match event {
        DirEvent::Created(Err(e)) => {
            match purpose {
                Purpose::Log => lemma_holds(
                    "Bouclier Bleu [Warning]: Failed to securely create log directory: "@,
                    e@,
                    Seq::empty(),
                ),
                Purpose::Control => lemma_holds(
                    "FATAL: Failed to construct secure IPC directory: "@,
                    e@,
                    Seq::empty(),
                ),
            }
        },
        DirEvent::Removed(Err(e)) => {
            match purpose {
                Purpose::Log => lemma_holds(
                    "Bouclier Bleu [CRITICAL]: Failed to wipe compromised log directory: "@,
                    e@,
                    ". Sinking telemetry to fallback."@,
                ),
                Purpose::Control => if wiped_as_file {
                    lemma_holds(
                        "FATAL: Failed to remove compromised symlink/file: "@,
                        e@,
                        Seq::empty(),
                    )
                } else {
                    lemma_holds(
                        "FATAL: Failed to wipe compromised IPC directory: "@,
                        e@,
                        Seq::empty(),
                    )
                },
            }
        },
        DirEvent::Rebuilt(Err(e)) => {
            match purpose {
                Purpose::Log => lemma_holds(
                    "Bouclier Bleu [CRITICAL]: Failed to recreate secure log directory: "@,
                    e@,
                    ". Sinking telemetry to fallback."@,
                ),
                Purpose::Control => lemma_holds(
                    "FATAL: Failed to recreate secure IPC directory post-remediation: "@,
                    e@,
                    Seq::empty(),
                ),
            }
        },
        DirEvent::Inspected(Some(meta)) => {
            if !is_secure(purpose, meta) {
                let kind = match purpose {
                    Purpose::Log => "Log"@,
                    Purpose::Control => "IPC"@,
                };
                lemma_holds(
                    "Bouclier Bleu [WARNING]: "@ + kind + " directory "@,
                    path,
                    " has insecure permissions (Potential Pre-Staging Attack). Auto-remediating..."@,
                );
            }
        },
        _ => {},
    }
}

proof fn lemma_holds(before: Seq<char>, s: Seq<char>, after: Seq<char>)
    ensures
        contains(before + s + after, s),
        contains(before + s, s),
{
    law_contains_means_a_part(before + s + after, s);
    law_contains_means_a_part(before + s, s);
    assert(before + s =~= before + s + Seq::empty());
}

} // verus!
