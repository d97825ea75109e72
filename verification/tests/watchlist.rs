use bouclier_bleu::catalog::{count_entries, map_capacities, Heuristic, Watch};
use bouclier_bleu::fs_utils::{
    calculate_dynamic_capacity, calculate_watchlist_capacity, select_entries, EntryType, FoundType,
    HiddenRule, ScanEntry, MAX_SCAN_DEPTH,
};
use bouclier_bleu::hardware_key::generate_hardware_key;
use bouclier_bleu::notices::{
    handler_failure, handler_notice, protected_notice, refused_notice, scan_notice, EMPTY_FAILURE,
    EMPTY_NOTICE,
};
use bouclier_bleu::watchlist::{
    opted_in_key, path_failure, populate_map_from_files, populate_map_from_paths,
    populate_map_from_xattr, xattr_failure,
    SetupAction, SetupEvent, WatchlistSetup, PROTECTED,
};
use std::collections::{BTreeMap, HashMap};

fn entry(depth: usize, name: &str, found: FoundType) -> ScanEntry {
    ScanEntry { depth, name: name.to_string(), found }
}

fn home() -> Vec<ScanEntry> {
    vec![
        entry(0, "home", FoundType::Directory),
        entry(1, "ada", FoundType::Directory),
        entry(2, ".cache", FoundType::Directory),
        entry(3, "blobs", FoundType::Directory),
        entry(2, ".ssh", FoundType::Directory),
        entry(3, "keys", FoundType::Directory),
        entry(3, "id", FoundType::File),
        entry(2, "notes", FoundType::File),
        entry(2, "link", FoundType::Other),
    ]
}

#[test]
fn test_generate_hardware_key_alignment() {
    let key = generate_hardware_key(123_456, 0x801);
    assert_eq!(key.len(), 16);
    assert_eq!(&key[12..16], &[0u8; 4]);
}

#[test]
fn hardware_key_holds_inode_and_kernel_device() {
    // Major 8, minor 1 in the encoding of user space.
    let key = generate_hardware_key(0x1122_3344_5566_7788, 0x801);
    assert_eq!(&key[0..8], &0x1122_3344_5566_7788u64.to_ne_bytes());
    assert_eq!(&key[8..12], &((8u32 << 20) | 1).to_ne_bytes());
    // Minor numbers above 255 are spread over two fields.
    let key = generate_hardware_key(1, (0x103 & 0xff) | (0x103 & !0xff) << 12 | 259 << 8);
    assert_eq!(&key[8..12], &((259u32 << 20) | 0x103).to_ne_bytes());
}

#[test]
fn hardware_keys_of_different_inodes_differ() {
    assert_ne!(generate_hardware_key(1, 0x801), generate_hardware_key(2, 0x801));
    assert_ne!(generate_hardware_key(1, 0x801), generate_hardware_key(1, 0x802));
}

#[test]
fn hidden_directories_hide_their_contents() {
    let scan = home();
    let rule = HiddenRule { ignore_hidden: true, allow_hidden: &[".ssh"] };
    assert_eq!(select_entries(&scan, EntryType::Directory, &rule), vec![0, 1, 4, 5]);
    assert_eq!(select_entries(&scan, EntryType::File, &rule), vec![6, 7]);
    let open = HiddenRule { ignore_hidden: false, allow_hidden: &[] };
    assert_eq!(select_entries(&scan, EntryType::Directory, &open), vec![0, 1, 2, 3, 4, 5]);
    assert!(!rule.admits(".cache"));
    assert!(rule.admits(".ssh"));
    assert!(rule.admits("cache"));
}

#[test]
fn a_scan_that_skips_early_covers_the_same() {
    let rule = HiddenRule { ignore_hidden: true, allow_hidden: &[".ssh"] };
    let skipped: Vec<ScanEntry> = home()
        .into_iter()
        .filter(|e| e.name != ".cache" && e.name != "blobs")
        .collect();
    let full = home();
    let names = |scan: &[ScanEntry]| -> Vec<String> {
        select_entries(scan, EntryType::Directory, &rule)
            .into_iter()
            .map(|i| scan[i].name.clone())
            .collect()
    };
    assert_eq!(names(&skipped), names(&full));
}

#[test]
fn capacity_has_a_floor_and_a_quarter_to_spare() {
    let many: Vec<ScanEntry> = (0..10_000)
        .map(|i| entry(1, &format!("d{}", i), FoundType::Directory))
        .collect();
    assert_eq!(calculate_dynamic_capacity(&many, EntryType::Directory, 8192, false, &[]), 12_500);
    assert_eq!(calculate_dynamic_capacity(&many[..100], EntryType::Directory, 8192, false, &[]), 8192);
    assert_eq!(calculate_dynamic_capacity(&many, EntryType::File, 8192, false, &[]), 8192);
    assert_eq!(calculate_dynamic_capacity(&many[..7], EntryType::Directory, 0, false, &[]), 8);
    let files: Vec<ScanEntry> = (0..2001)
        .map(|i| entry(1, &format!("f{}", i), FoundType::File))
        .collect();
    assert_eq!(calculate_watchlist_capacity(&files), 2501);
    assert_eq!(calculate_watchlist_capacity(&[]), 2048);
}

#[test]
fn watchlists_are_sized_by_their_kind() {
    assert_eq!(map_capacities(Heuristic::Shield.watch(), &[]), Some(("protected_files", 2)));
    assert_eq!(map_capacities(Heuristic::PtraceBlock.watch(), &[]), Some(("protected_processes", 256)));
    assert_eq!(map_capacities(Heuristic::DumpRestrict.watch(), &[]), Some(("protected_files", 16)));
    assert_eq!(map_capacities(Heuristic::ExecBlock.watch(), &[]), Some(("protected_dirs", 8192)));
    assert_eq!(map_capacities(Heuristic::StrictWx.watch(), &[]), Some(("strict_wx_binaries", 2048)));
    assert_eq!(map_capacities(Heuristic::MountSecure.watch(), &[]), None);
    assert_eq!(MAX_SCAN_DEPTH, 20);
    match Heuristic::RenameEntropy.watch() {
        Watch::Scan { roots, ignore_hidden, allow_hidden, .. } => {
            assert_eq!(roots.to_vec(), vec!["/home", "/var", "/etc", "/opt"]);
            assert!(ignore_hidden);
            assert!(allow_hidden.contains(&".ssh"));
        }
        _ => panic!("renames are watched by directory"),
    }
}

#[test]
fn every_covered_entry_is_resolved_and_written() {
    let scan = home();
    let mut setup = populate_map_from_paths(&scan, EntryType::Directory, true, &[".ssh"]);
    let key = [7u8; 16];
    assert!(matches!(setup.step(SetupEvent::Begin), SetupAction::Resolve(0)));
    match setup.step(SetupEvent::Resolved(Some(key))) {
        SetupAction::Update(k) => assert_eq!(k, key),
        _ => panic!("a resolved key is written"),
    }
    assert!(matches!(setup.step(SetupEvent::Updated), SetupAction::Resolve(1)));
    // An entry that vanished is passed over.
    assert!(matches!(setup.step(SetupEvent::Resolved(None)), SetupAction::Resolve(4)));
    setup.step(SetupEvent::Resolved(Some(key)));
    assert!(matches!(setup.step(SetupEvent::Updated), SetupAction::Resolve(5)));
    setup.step(SetupEvent::Resolved(Some(key)));
    assert!(matches!(setup.step(SetupEvent::Updated), SetupAction::Finish));
    assert_eq!(PROTECTED, [1]);
}

#[test]
fn a_refused_key_fails_a_strict_setup() {
    let scan = home();
    let mut setup = populate_map_from_paths(&scan, EntryType::Directory, false, &[]);
    setup.step(SetupEvent::Begin);
    setup.step(SetupEvent::Resolved(Some([0; 16])));
    assert!(matches!(setup.step(SetupEvent::Refused), SetupAction::Abort));
    assert_eq!(
        path_failure("/tmp/x", "No space left"),
        "CRITICAL: Map update failed for /tmp/x: No space left"
    );
    assert_eq!(
        xattr_failure("strict_wx_binaries", "No space left"),
        "CRITICAL: strict_wx_binaries map failed to update: No space left"
    );
}

#[test]
fn a_fixed_list_needs_one_protected_file() {
    let mut setup = WatchlistSetup::new(vec![0, 1], false, true);
    setup.step(SetupEvent::Begin);
    assert!(matches!(setup.step(SetupEvent::Resolved(None)), SetupAction::Resolve(1)));
    setup.step(SetupEvent::Resolved(Some([1; 16])));
    assert!(matches!(setup.step(SetupEvent::Refused), SetupAction::Empty));

    let mut setup = WatchlistSetup::new(vec![0], false, true);
    setup.step(SetupEvent::Begin);
    setup.step(SetupEvent::Resolved(Some([1; 16])));
    assert!(matches!(setup.step(SetupEvent::Updated), SetupAction::Finish));

    let mut setup = WatchlistSetup::new(vec![], false, false);
    assert!(matches!(setup.step(SetupEvent::Begin), SetupAction::Finish));
}

#[test]
fn only_an_attribute_of_one_opts_in() {
    let key = Some([3u8; 16]);
    assert_eq!(opted_in_key(&Some(b"1".to_vec()), key), key);
    assert_eq!(opted_in_key(&Some(b"0".to_vec()), key), None);
    assert_eq!(opted_in_key(&Some(b"11".to_vec()), key), None);
    assert_eq!(opted_in_key(&Some(Vec::new()), key), None);
    assert_eq!(opted_in_key(&None, key), None);
    assert_eq!(opted_in_key(&Some(b"1".to_vec()), None), None);
    let scan = home();
    let mut setup = populate_map_from_xattr(&scan);
    assert!(matches!(setup.step(SetupEvent::Begin), SetupAction::Resolve(6)));
    assert!(matches!(setup.step(SetupEvent::Resolved(None)), SetupAction::Resolve(7)));
    assert!(matches!(setup.step(SetupEvent::Resolved(None)), SetupAction::Finish));
}

/// Runs a set-up against a map that holds up to `capacity` keys; gives how it ended and what the map
/// holds then.
fn fill(
    mut setup: WatchlistSetup,
    capacity: usize,
    key_of: impl Fn(usize) -> Option<[u8; 16]>,
) -> (SetupAction, BTreeMap<[u8; 16], [u8; 1]>) {
    let mut held = BTreeMap::new();
    let mut action = setup.step(SetupEvent::Begin);
    loop {
        action = match action {
            SetupAction::Resolve(index) => setup.step(SetupEvent::Resolved(key_of(index))),
            SetupAction::Update(key) => {
                if held.contains_key(&key) || held.len() < capacity {
                    held.insert(key, PROTECTED);
                    setup.step(SetupEvent::Updated)
                } else {
                    setup.step(SetupEvent::Refused)
                }
            }
            end => return (end, held),
        };
    }
}

fn key(index: usize) -> [u8; 16] {
    generate_hardware_key(index as u64, 0x801)
}

#[test]
fn a_watchlist_fits_the_map_that_its_scan_sized() {
    let scan: Vec<ScanEntry> =
        (0..3000).map(|i| entry(1, &format!("f{}", i), FoundType::File)).collect();
    let capacity = calculate_dynamic_capacity(&scan, EntryType::File, 0, false, &[]) as usize;
    let setup = populate_map_from_paths(&scan, EntryType::File, false, &[]);
    let (end, held) = fill(setup, capacity, |i| Some(key(i)));
    assert!(matches!(end, SetupAction::Finish));
    assert_eq!(held.len(), 3000);
    assert!(held.len() <= capacity);
    assert!(held.values().all(|value| *value == [1]));

    let capacity = calculate_watchlist_capacity(&scan) as usize;
    let (end, held) = fill(populate_map_from_xattr(&scan), capacity, |i| (i % 2 == 0).then(|| key(i)));
    assert!(matches!(end, SetupAction::Finish));
    assert_eq!(held.len(), 1500);
}

#[test]
fn a_map_that_is_too_small_fails_a_strict_setup() {
    let scan = home();
    let setup = populate_map_from_paths(&scan, EntryType::Directory, false, &[]);
    let (end, held) = fill(setup, 2, |i| Some(key(i)));
    assert!(matches!(end, SetupAction::Abort));
    assert_eq!(held.len(), 2);
    // Links to one file take one place.
    let setup = populate_map_from_paths(&scan, EntryType::Directory, false, &[]);
    let (end, held) = fill(setup, 1, |_| Some(key(7)));
    assert!(matches!(end, SetupAction::Finish));
    assert_eq!(held.len(), 1);
}

#[test]
fn exactly_the_resolved_keys_of_covered_entries_are_held() {
    let scan = home();
    let setup = populate_map_from_paths(&scan, EntryType::Directory, true, &[".ssh"]);
    let (end, held) = fill(setup, 100, |i| (i != 1).then(|| key(i)));
    assert!(matches!(end, SetupAction::Finish));
    let expected: Vec<[u8; 16]> = [0, 4, 5].iter().map(|i| key(*i)).collect();
    let mut held: Vec<[u8; 16]> = held.into_keys().collect();
    held.sort();
    let mut wanted = expected;
    wanted.sort();
    assert_eq!(held, wanted);
}

#[test]
fn fixed_lists_fit_their_maps() {
    for heuristic in [Heuristic::Shield, Heuristic::PtraceBlock] {
        match heuristic.watch() {
            Watch::Files { capacity, paths, .. } => assert!(paths.len() <= capacity as usize),
            _ => panic!("a fixed list was expected"),
        }
    }
}

#[test]
fn capacity_grows_with_what_the_rule_lets_in() {
    let scan: Vec<ScanEntry> = (0..100)
        .flat_map(|i| {
            [
                entry(1, &format!("d{}", i), FoundType::Directory),
                entry(2, if i % 2 == 0 { ".ssh" } else { ".cache" }, FoundType::Directory),
            ]
        })
        .collect();
    let size = |ignore, allow: &[&str]| {
        calculate_dynamic_capacity(&scan, EntryType::Directory, 10, ignore, allow)
    };
    assert_eq!(size(true, &[]), 125);
    assert_eq!(size(true, &[".ssh"]), 187);
    assert_eq!(size(true, &[".ssh", ".cache"]), 250);
    assert_eq!(size(false, &[]), 250);
    assert_eq!(size(false, &[".ssh"]), 250);
    assert_eq!(calculate_dynamic_capacity(&[], EntryType::Directory, 10, true, &[]), 10);
}

#[test]
fn opt_in_watchlists_are_sized_like_file_watchlists() {
    for n in [0usize, 1, 2000, 5000] {
        let scan: Vec<ScanEntry> = (0..n)
            .flat_map(|i| [entry(1, &format!(".f{}", i), FoundType::File), entry(1, "d", FoundType::Directory)])
            .collect();
        assert_eq!(
            calculate_watchlist_capacity(&scan),
            calculate_dynamic_capacity(&scan, EntryType::File, 2048, false, &[])
        );
    }
}

#[test]
fn only_what_is_watched_is_counted() {
    let scan = home();
    assert_eq!(count_entries(Heuristic::ExecBlock.watch(), &scan), 6);
    assert_eq!(count_entries(Heuristic::RenameEntropy.watch(), &scan), 4);
    assert_eq!(count_entries(Heuristic::StrictWx.watch(), &scan), 2);
    assert_eq!(count_entries(Heuristic::Shield.watch(), &scan), 0);
}

#[test]
fn an_operator_is_told_of_the_setup() {
    let scans: HashMap<&str, String> = [
        Heuristic::ExecBlock,
        Heuristic::RenameEntropy,
        Heuristic::StrictWx,
        Heuristic::IoRestrict,
    ]
    .into_iter()
    .map(|heuristic| (heuristic.slug(), scan_notice(heuristic, "/x")))
    .collect();
    assert_eq!(scans["exec_block"], "Bouclier Bleu [Setup]: Recursively indexing volatile path /x...");
    assert_eq!(
        scans["rename_entropy"],
        "Bouclier Bleu [Setup]: Recursively indexing path /x for rename_entropy..."
    );
    assert_eq!(
        scans["strict_wx"],
        "Bouclier Bleu [Setup]: Scanning /x for strict_wx opt-in attributes..."
    );
    assert_eq!(
        scans["io_restrict"],
        "Bouclier Bleu [Setup]: Scanning /x for io_restrict authorized I/O daemons..."
    );
    assert_eq!(
        protected_notice(Heuristic::StrictWx, "\"/b\""),
        Some("Bouclier Bleu [Setup]: strict_wx strict enforcement activated for \"/b\"".to_string())
    );
    assert_eq!(
        protected_notice(Heuristic::IoRestrict, "\"/b\""),
        Some(
            "Bouclier Bleu [Setup]: High-speed asynchronous I/O (io_uring) authorized for \"/b\""
                .to_string()
        )
    );
    assert_eq!(
        protected_notice(Heuristic::PtraceBlock, "/b"),
        Some("Bouclier Bleu [Setup]: Anti-dumping memory protection activated for /b".to_string())
    );
    assert_eq!(protected_notice(Heuristic::Shield, "/b"), None);
    assert_eq!(
        refused_notice(Heuristic::Shield, "/b", "E2BIG"),
        Some("Bouclier Bleu [WARNING]: Could not protect /b: E2BIG".to_string())
    );
    assert_eq!(
        refused_notice(Heuristic::PtraceBlock, "/b", "E2BIG"),
        Some("Bouclier Bleu [WARNING]: Could not protect credential process /b: E2BIG".to_string())
    );
    assert_eq!(refused_notice(Heuristic::ExecBlock, "/b", "E2BIG"), None);
    assert_eq!(handler_notice("/h", true), "Bouclier Bleu [Setup]: Core dump piped handler '/h' indexed.");
    assert_eq!(
        handler_notice("/h", false),
        "Bouclier Bleu [Warning]: Could not resolve hardware key for piped handler '/h'."
    );
    assert_eq!(handler_failure("E2BIG"), "Failed to update protected_files map: E2BIG");
    assert_eq!(EMPTY_NOTICE, "Bouclier Bleu [CRITICAL]: No credential processes could be protected!");
    assert_eq!(EMPTY_FAILURE, "Credential protection initialization failed: Watchlist empty");
}

#[test]
fn fixed_files_are_tried_in_turn_and_refusals_passed_over() {
    let (end, held) = fill(populate_map_from_files(&["/a", "/b", "/c"], true), 1, |i| Some(key(i)));
    assert!(matches!(end, SetupAction::Finish));
    assert_eq!(held.into_keys().collect::<Vec<_>>(), vec![key(0)]);
    let (end, held) = fill(populate_map_from_files(&["/a", "/b"], true), 0, |i| Some(key(i)));
    assert!(matches!(end, SetupAction::Empty));
    assert!(held.is_empty());
    let (end, _) = fill(populate_map_from_files(&["/a", "/b"], false), 0, |i| Some(key(i)));
    assert!(matches!(end, SetupAction::Finish));
}

#[test]
fn nothing_is_covered_below_the_deepest_level() {
    let scan: Vec<ScanEntry> = (0..30)
        .flat_map(|depth| [entry(depth, "d", FoundType::Directory), entry(depth + 1, "f", FoundType::File)])
        .collect();
    let rule = HiddenRule { ignore_hidden: false, allow_hidden: &[] };
    assert_eq!(select_entries(&scan, EntryType::Directory, &rule).len(), MAX_SCAN_DEPTH + 1);
    assert_eq!(select_entries(&scan, EntryType::File, &rule).len(), MAX_SCAN_DEPTH);
    assert_eq!(count_entries(Heuristic::ExecBlock.watch(), &scan), MAX_SCAN_DEPTH + 1);
    assert_eq!(count_entries(Heuristic::StrictWx.watch(), &scan), MAX_SCAN_DEPTH);
}
