//! What an operator is told while the watchlists are set up.

use crate::catalog::Heuristic;
use crate::text::{contains, law_contains_means_a_part};
use vstd::prelude::*;

verus! {

/// What is told where nothing could be protected that has to be.
pub const EMPTY_NOTICE: &'static str = "Bouclier Bleu [CRITICAL]: No credential processes could be protected!";

/// The failure where nothing could be protected that has to be.
pub const EMPTY_FAILURE: &'static str = "Credential protection initialization failed: Watchlist empty";

/// What is told before a directory is scanned, in the model.
pub open spec fn scan_text(heuristic: Heuristic, root: Seq<char>) -> Seq<char> {
    match heuristic {
        Heuristic::ExecBlock => "Bouclier Bleu [Setup]: Recursively indexing volatile path "@ + root
            + "..."@,
        Heuristic::StrictWx => "Bouclier Bleu [Setup]: Scanning "@ + root + " for "@ + heuristic.id()
            + " opt-in attributes..."@,
        Heuristic::IoRestrict => "Bouclier Bleu [Setup]: Scanning "@ + root + " for "@
            + heuristic.id() + " authorized I/O daemons..."@,
        _ => "Bouclier Bleu [Setup]: Recursively indexing path "@ + root + " for "@ + heuristic.id()
            + "..."@,
    }
}

/// What is told before a directory is scanned for the watchlist of a heuristic.
pub fn scan_notice(heuristic: Heuristic, root: &str) -> (r: String)
    ensures
        r@ == scan_text(heuristic, root@),
{
    let mut out = match heuristic {
        Heuristic::ExecBlock => "Bouclier Bleu [Setup]: Recursively indexing volatile path ".to_owned(),
        Heuristic::StrictWx => "Bouclier Bleu [Setup]: Scanning ".to_owned(),
        Heuristic::IoRestrict => "Bouclier Bleu [Setup]: Scanning ".to_owned(),
        _ => "Bouclier Bleu [Setup]: Recursively indexing path ".to_owned(),
    };
    out.append(root);
    match heuristic {
        Heuristic::ExecBlock => {
            out.append("...");
        },
        Heuristic::StrictWx => {
            out.append(" for ");
            out.append(heuristic.slug());
            out.append(" opt-in attributes...");
        },
        Heuristic::IoRestrict => {
            out.append(" for ");
            out.append(heuristic.slug());
            out.append(" authorized I/O daemons...");
        },
        _ => {
            out.append(" for ");
            out.append(heuristic.slug());
            out.append("...");
        },
    }
    out
}

/// What is told of an entry that is protected, in the model: nothing where entries are many.
pub open spec fn protected_text(heuristic: Heuristic, path: Seq<char>) -> Option<Seq<char>> {
    match heuristic {
        Heuristic::StrictWx => Some(
            "Bouclier Bleu [Setup]: "@ + heuristic.id() + " strict enforcement activated for "@
                + path,
        ),
        Heuristic::IoRestrict => Some(
            "Bouclier Bleu [Setup]: High-speed asynchronous I/O (io_uring) authorized for "@ + path,
        ),
        Heuristic::PtraceBlock => Some(
            "Bouclier Bleu [Setup]: Anti-dumping memory protection activated for "@ + path,
        ),
        _ => None,
    }
}

/// What is told of an entry that is protected, if anything.
pub fn protected_notice(heuristic: Heuristic, path: &str) -> (r: Option<String>)
    ensures
        r is Some <==> protected_text(heuristic, path@) is Some,
        r matches Some(line) ==> protected_text(heuristic, path@) == Some(line@),
{
    let mut out = match heuristic {
        Heuristic::StrictWx => {
            let mut start = "Bouclier Bleu [Setup]: ".to_owned();
            start.append(heuristic.slug());
            start.append(" strict enforcement activated for ");
            start
        },
        Heuristic::IoRestrict => {
            "Bouclier Bleu [Setup]: High-speed asynchronous I/O (io_uring) authorized for ".to_owned()
        },
        Heuristic::PtraceBlock => {
            "Bouclier Bleu [Setup]: Anti-dumping memory protection activated for ".to_owned()
        },
        _ => {
            return None;
        },
    };
    out.append(path);
    Some(out)
}

/// What is told of an entry that the kernel map refused and that is passed over, in the model.
pub open spec fn refused_text(
    heuristic: Heuristic,
    path: Seq<char>,
    error: Seq<char>,
) -> Option<Seq<char>> {
    match heuristic {
        Heuristic::Shield => Some(
            "Bouclier Bleu [WARNING]: Could not protect "@ + path + ": "@ + error,
        ),
        Heuristic::PtraceBlock => Some(
            "Bouclier Bleu [WARNING]: Could not protect credential process "@ + path + ": "@ + error,
        ),
        _ => None,
    }
}

/// What is told of an entry that the kernel map refused and that is passed over, if anything.
pub fn refused_notice(heuristic: Heuristic, path: &str, error: &str) -> (r: Option<String>)
    ensures
        r is Some <==> refused_text(heuristic, path@, error@) is Some,
        r matches Some(line) ==> refused_text(heuristic, path@, error@) == Some(line@),
{
    let mut out = match heuristic {
        Heuristic::Shield => "Bouclier Bleu [WARNING]: Could not protect ".to_owned(),
        Heuristic::PtraceBlock => {
            "Bouclier Bleu [WARNING]: Could not protect credential process ".to_owned()
        },
        _ => {
            return None;
        },
    };
    out.append(path);
    out.append(": ");
    out.append(error);
    Some(out)
}

/// What is told of the helper that core dumps are piped to, in the model.
pub open spec fn handler_text(path: Seq<char>, indexed: bool) -> Seq<char> {
    if indexed {
        "Bouclier Bleu [Setup]: Core dump piped handler '"@ + path + "' indexed."@
    } else {
        "Bouclier Bleu [Warning]: Could not resolve hardware key for piped handler '"@ + path + "'."@
    }
}

/// What is told of the helper that core dumps are piped to.
pub fn handler_notice(path: &str, indexed: bool) -> (r: String)
    ensures
        r@ == handler_text(path@, indexed),
{
    if indexed {
        let mut out = "Bouclier Bleu [Setup]: Core dump piped handler '".to_owned();
        out.append(path);
        out.append("' indexed.");
        out
    } else {
        let mut out = "Bouclier Bleu [Warning]: Could not resolve hardware key for piped handler '".to_owned();
        out.append(path);
        out.append("'.");
        out
    }
}

/// The failure when the kernel map refuses the helper that core dumps are piped to, in the model.
pub open spec fn handler_failure_text(error: Seq<char>) -> Seq<char> {
    "Failed to update protected_files map: "@ + error
}

/// The failure when the kernel map refuses the helper that core dumps are piped to.
pub fn handler_failure(error: &str) -> (r: String)
    ensures
        r@ == handler_failure_text(error@),
{
    let mut out = "Failed to update protected_files map: ".to_owned();
    out.append(error);
    out
}

/// Before a directory is scanned an operator is told which, and, but for volatile paths, for which
/// heuristic.
pub proof fn law_scans_are_announced(heuristic: Heuristic, root: Seq<char>)
    ensures
        contains(scan_text(heuristic, root), root),
        heuristic != Heuristic::ExecBlock ==> contains(scan_text(heuristic, root), heuristic.id()),
{
    let all = scan_text(heuristic, root);
    let id = heuristic.id();
    match heuristic {
        Heuristic::ExecBlock => {
            law_contains_means_a_part(all, root);
        },
        Heuristic::StrictWx => {
            let head = "Bouclier Bleu [Setup]: Scanning "@;
            let tail = " opt-in attributes..."@;
            assert(all =~= head + root + (" for "@ + id + tail));
            law_contains_means_a_part(all, root);
            law_contains_means_a_part(all, id);
        },
        Heuristic::IoRestrict => {
            let head = "Bouclier Bleu [Setup]: Scanning "@;
            let tail = " authorized I/O daemons..."@;
            assert(all =~= head + root + (" for "@ + id + tail));
            law_contains_means_a_part(all, root);
            law_contains_means_a_part(all, id);
        },
        _ => {
            let head = "Bouclier Bleu [Setup]: Recursively indexing path "@;
            assert(all =~= head + root + (" for "@ + id + "..."@));
            law_contains_means_a_part(all, root);
            law_contains_means_a_part(all, id);
        },
    }
}

/// Of an entry that is protected an operator is told, by its path, where the heuristic protects
/// single programs; of one that was refused and passed over, by its path and the error, where the
/// list of files is fixed.
pub proof fn law_entries_are_named(heuristic: Heuristic, path: Seq<char>, error: Seq<char>)
    ensures
        protected_text(heuristic, path) is Some <==> heuristic == Heuristic::StrictWx || heuristic
            == Heuristic::IoRestrict || heuristic == Heuristic::PtraceBlock,
        protected_text(heuristic, path) matches Some(line) ==> contains(line, path),
        refused_text(heuristic, path, error) is Some <==> heuristic == Heuristic::Shield || heuristic
            == Heuristic::PtraceBlock,
        refused_text(heuristic, path, error) matches Some(line) ==> contains(line, path) && contains(
            line,
            error,
        ),
{
    let none = Seq::<char>::empty();
    if let Some(line) = protected_text(heuristic, path) {
        let head = line.take(line.len() - path.len());
        assert(line =~= head + path + none);
        law_contains_means_a_part(line, path);
    }
    if let Some(line) = refused_text(heuristic, path, error) {
        let head = if heuristic == Heuristic::Shield {
            "Bouclier Bleu [WARNING]: Could not protect "@
        } else {
            "Bouclier Bleu [WARNING]: Could not protect credential process "@
        };
        assert(line =~= head + path + (": "@ + error));
        law_contains_means_a_part(line, path);
        assert(line =~= (head + path + ": "@) + error + none);
        law_contains_means_a_part(line, error);
    }
}

/// The helper for core dumps is named whether or not it could be indexed, and the two are told apart.
pub proof fn law_helper_is_named(path: Seq<char>, indexed: bool, error: Seq<char>)
    ensures
        contains(handler_text(path, indexed), path),
        contains(handler_text(path, true), "' indexed."@),
        handler_text(path, true) != handler_text(path, false),
        contains(handler_failure_text(error), error),
{
    reveal_strlit("Bouclier Bleu [Setup]: Core dump piped handler '");
    reveal_strlit("Bouclier Bleu [Warning]: Could not resolve hardware key for piped handler '");
    let yes = handler_text(path, true);
    let no = handler_text(path, false);
    law_contains_means_a_part(yes, path);
    law_contains_means_a_part(no, path);
    let none = Seq::<char>::empty();
    assert(yes =~= ("Bouclier Bleu [Setup]: Core dump piped handler '"@ + path) + "' indexed."@
        + none);
    law_contains_means_a_part(yes, "' indexed."@);
    assert(yes[15] == 'S' && no[15] == 'W');
    let failure = handler_failure_text(error);
    assert(failure =~= "Failed to update protected_files map: "@ + error + none);
    law_contains_means_a_part(failure, error);
}

} // verus!
