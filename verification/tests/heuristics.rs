use bouclier_bleu::catalog::{Alert, Heuristic};
use bouclier_bleu::fields::FieldValue;
use bouclier_bleu::heuristics::dump_restrict::{piped_handler, DumpAlert};
use bouclier_bleu::heuristics::entropy::{compute_entropy, is_suspicious, ENTROPY_THRESHOLD};
use bouclier_bleu::heuristics::exec_block::ExecAlert;
use bouclier_bleu::heuristics::io_restrict::IoRestrictAlert;
use bouclier_bleu::heuristics::madvise_ratelimit::MadviseAlert;
use bouclier_bleu::heuristics::mount_secure::MountAlert;
use bouclier_bleu::heuristics::ptrace_block::PtraceAlert;
use bouclier_bleu::heuristics::rename_entropy::{join_path, RenameAlert};
use bouclier_bleu::heuristics::shield::ShieldAlert;
use bouclier_bleu::heuristics::strict_wx::StrictWxAlert;
use bouclier_bleu::heuristics::userns_restrict::UsernsAlert;
use bouclier_bleu::module::{
    build_registry, control_notice, find_module, mangling_notice, HeuristicModule, Outcome,
    SecurityModule,
};

const UNDERSIZED: &str = "Telemetry payload violates minimum size constraints.";

fn number(record: &mut Vec<u8>, n: u32) {
    record.extend_from_slice(&n.to_ne_bytes());
}

fn text(record: &mut Vec<u8>, s: &[u8], width: usize) {
    record.extend_from_slice(s);
    record.extend(std::iter::repeat(0u8).take(width - s.len()));
}

#[test]
fn exec_alert_is_decoded_and_reported() {
    let mut record = Vec::new();
    number(&mut record, 77);
    text(&mut record, b"/tmp/dropper", 4096);
    let alert = ExecAlert::try_from_bytes(&record).ok().unwrap();
    assert_eq!(alert.pid, 77);
    assert_eq!(alert.path, "/tmp/dropper");
    assert_eq!(
        alert.report(),
        "Bouclier Bleu [BLOCK]: PID 77 attempted execution from protected path: /tmp/dropper"
    );
    record.pop();
    assert_eq!(ExecAlert::try_from_bytes(&record).err(), Some(UNDERSIZED));
}

#[test]
fn rename_alert_joins_directory_and_file() {
    let mut record = Vec::new();
    number(&mut record, 10);
    number(&mut record, 9);
    text(&mut record, b"/home/user//", 4096);
    text(&mut record, b"x9!q.locked", 256);
    let alert = RenameAlert::try_from_bytes(&record).ok().unwrap();
    assert_eq!(alert.pid, 10);
    assert_eq!(alert.ppid, 9);
    assert_eq!(alert.full_path, "/home/user/x9!q.locked");
    assert_eq!(
        alert.report(),
        "Bouclier Bleu [FATAL]: PID 10 triggered ransomware entropy heuristic on target: /home/user/x9!q.locked"
    );
    assert_eq!(record.len(), 4360);
    assert_eq!(RenameAlert::try_from_bytes(&record[..4359]).err(), Some(UNDERSIZED));
}

#[test]
fn join_path_keeps_exactly_one_slash() {
    assert_eq!(join_path("/", "a"), "/a");
    assert_eq!(join_path("", "a"), "/a");
    assert_eq!(join_path("/x///", "a/"), "/x/a/");
}

#[test]
fn shield_alert_labels_its_actions() {
    for (action, label) in [
        (1, "FILE_TAMPER"),
        (2, "BPF_TAMPER"),
        (3, "SYSLOG_LEAK"),
        (9, "UNKNOWN_VIOLATION"),
    ] {
        let mut record = Vec::new();
        number(&mut record, 5);
        number(&mut record, action);
        text(&mut record, b"/etc/bouclier-bleu/config.toml", 4096);
        let alert = ShieldAlert::try_from_bytes(&record).ok().unwrap();
        assert_eq!(
            alert.report(),
            format!(
                "Bouclier Bleu [SHIELD]: Blocked unauthorized action [{}] by PID 5 on target: /etc/bouclier-bleu/config.toml",
                label
            )
        );
    }
}

#[test]
fn dump_alert_labels_its_actions() {
    for (action, label) in [
        (1, "COREDUMP_GENERATION"),
        (2, "PRCTL_DUMPABLE_TAMPER"),
        (3, "PIPED_COREDUMP_HANDLER"),
        (0, "UNKNOWN_VIOLATION"),
    ] {
        let mut record = Vec::new();
        number(&mut record, 1);
        number(&mut record, 1000);
        number(&mut record, action);
        text(&mut record, b"vim", 16);
        let alert = DumpAlert::try_from_bytes(&record).ok().unwrap();
        assert_eq!(
            alert.report(),
            format!(
                "Bouclier Bleu [BLOCK]: PID 1 (UID 1000) attempted [{}] via process 'vim'.",
                label
            )
        );
        assert_eq!(DumpAlert::try_from_bytes(&record[..27]).err(), Some(UNDERSIZED));
    }
}

#[test]
fn ptrace_alert_labels_its_actions() {
    for (action, label) in [
        (1, "CREDENTIAL_DUMP"),
        (2, "PROCESS_INJECTION"),
        (3, "PROC_MEM_TAMPER"),
        (4, "UNKNOWN_VIOLATION"),
    ] {
        let mut record = Vec::new();
        number(&mut record, 11);
        number(&mut record, 22);
        number(&mut record, action);
        text(&mut record, b"sshd", 16);
        let alert = PtraceAlert::try_from_bytes(&record).ok().unwrap();
        assert_eq!(
            alert.report(),
            format!(
                "Bouclier Bleu [BLOCK]: PID 11 attempted [{}] against target 'sshd' (PID 22).",
                label
            )
        );
        assert_eq!(PtraceAlert::try_from_bytes(&record[..27]).err(), Some(UNDERSIZED));
    }
}

#[test]
fn io_alert_labels_its_actions() {
    for (action, label) in [
        (1, "ASYNC_IO_SETUP"),
        (2, "ZERO_COPY_VMSPLICE"),
        (3, "ZERO_COPY_SPLICE"),
        (8, "UNKNOWN_IO_VIOLATION"),
    ] {
        let mut record = Vec::new();
        number(&mut record, 3);
        number(&mut record, action);
        text(&mut record, b"io_uring_setup", 16);
        let alert = IoRestrictAlert::try_from_bytes(&record).ok().unwrap();
        assert_eq!(
            alert.report(),
            format!(
                "Bouclier Bleu [BLOCK]: PID 3 attempted restricted I/O primitive [{}] via io_uring_setup.",
                label
            )
        );
        assert_eq!(IoRestrictAlert::try_from_bytes(&record[..23]).err(), Some(UNDERSIZED));
    }
}

#[test]
fn strict_wx_alert_is_decoded_and_reported() {
    let mut record = Vec::new();
    number(&mut record, 8);
    text(&mut record, b"mprotect", 16);
    let alert = StrictWxAlert::try_from_bytes(&record).ok().unwrap();
    assert_eq!(
        alert.report(),
        "Bouclier Bleu [BLOCK]: PID 8 attempted shellcode injection via PROT_WRITE | PROT_EXEC on mprotect."
    );
    assert_eq!(StrictWxAlert::try_from_bytes(&record[..19]).err(), Some(UNDERSIZED));
}

#[test]
fn mount_alert_is_decoded() {
    let mut record = Vec::new();
    number(&mut record, 4);
    text(&mut record, b"/dev/sdb1", 256);
    text(&mut record, b"vfat", 64);
    text(&mut record, b"/media/usb", 512);
    let alert = MountAlert::try_from_bytes(&record).ok().unwrap();
    assert_eq!(alert.pid, 4);
    assert_eq!(alert.dev_name, "/dev/sdb1");
    assert_eq!(alert.fs_type, "vfat");
    assert_eq!(alert.mount_point, "/media/usb");
    assert!(alert.report().contains("/dev/sdb1"));
    assert_eq!(MountAlert::try_from_bytes(&record[..835]).err(), Some(UNDERSIZED));
}

#[test]
fn userns_and_madvise_alerts_are_decoded() {
    let mut record = Vec::new();
    number(&mut record, 6);
    number(&mut record, 2);
    text(&mut record, b"mount", 64);
    let alert = UsernsAlert::try_from_bytes(&record).ok().unwrap();
    assert_eq!((alert.pid, alert.action_type), (6, 2));
    assert_eq!(alert.target, "mount");
    assert_eq!(UsernsAlert::try_from_bytes(&record[..71]).err(), Some(UNDERSIZED));

    let mut record = Vec::new();
    number(&mut record, 6);
    number(&mut record, 7);
    number(&mut record, 5000);
    number(&mut record, 1);
    text(&mut record, b"dirtyc0w", 16);
    let alert = MadviseAlert::try_from_bytes(&record).ok().unwrap();
    assert_eq!((alert.pid, alert.tid, alert.count, alert.action_type), (6, 7, 5000, 1));
    assert_eq!(alert.comm, "dirtyc0w");
    assert_eq!(MadviseAlert::try_from_bytes(&record[..31]).err(), Some(UNDERSIZED));
}

#[test]
fn piped_handler_is_the_first_word_behind_the_pipe() {
    assert_eq!(
        piped_handler("|/usr/lib/systemd/systemd-coredump %P %u\n"),
        Some("/usr/lib/systemd/systemd-coredump".to_string())
    );
    assert_eq!(piped_handler("  | /usr/share/apport/apport -p%p"), Some("/usr/share/apport/apport".to_string()));
    assert_eq!(piped_handler("core.%p"), None);
    assert_eq!(piped_handler("|  \n"), None);
}

#[test]
fn entropy_of_known_names() {
    assert_eq!(compute_entropy(b""), 0);
    assert_eq!(compute_entropy(b"aaaa"), 0);
    // Four distinct bytes: log2(4) scaled, nothing to subtract.
    assert_eq!(compute_entropy(b"abcd"), 2048);
    // Two pairs: 2048 - (2 * 1024 + 2 * 1024) / 4.
    assert_eq!(compute_entropy(b"aabb"), 1024);
    assert_eq!(compute_entropy(b"abab"), compute_entropy(b"aabb"));
}

#[test]
fn only_long_random_names_are_suspicious() {
    assert!(!is_suspicious(b"document.txt"));
    assert!(!is_suspicious(b"0123456789abcdef"));
    let random: Vec<u8> = (0u8..32).collect();
    assert!(compute_entropy(&random) > ENTROPY_THRESHOLD);
    assert!(is_suspicious(&random));
}

#[test]
fn registry_finds_every_module_by_its_slug() {
    let registry = build_registry();
    assert_eq!(registry.len(), 9);
    for (i, module) in registry.iter().enumerate() {
        assert_eq!(find_module(&registry, module.slug()), Some(i));
        assert!(module.status());
    }
    assert_eq!(find_module(&registry, "io_restrict"), None);
    assert_eq!(registry[1].name(), "Ransomware Rename Entropy Monitor");
    assert_eq!(registry[1].slug(), "rename_entropy");
}

#[test]
fn inactive_module_drops_every_record() {
    let mut module = HeuristicModule::new(Heuristic::StrictWx);
    let mut record = Vec::new();
    number(&mut record, 8);
    text(&mut record, b"mmap", 16);
    assert!(matches!(module.process_event(&record), Outcome::Raised { .. }));
    module.toggle(false);
    assert!(matches!(module.process_event(&record), Outcome::Dropped));
    assert!(matches!(module.process_event(b""), Outcome::Dropped));
}

#[test]
fn malformed_record_is_reported() {
    let module = HeuristicModule::new(Heuristic::Shield);
    match module.process_event(b"short") {
        Outcome::Malformed(notice) => assert_eq!(
            notice,
            "Bouclier Bleu [Error]: shield failed to parse kernel event: Telemetry payload violates minimum size constraints."
        ),
        _ => panic!("a short record must be malformed"),
    }
}

#[test]
fn mangled_strings_are_counted() {
    let module = HeuristicModule::new(Heuristic::MountSecure);
    let mut record = Vec::new();
    number(&mut record, 4);
    text(&mut record, "/dev/\u{1b}[2Jsdb\né1".as_bytes(), 256);
    text(&mut record, b"vfat", 64);
    text(&mut record, b"/media/\xffusb", 512);
    match module.process_event(&record) {
        Outcome::Raised { alert, mangled } => {
            assert_eq!(mangled, vec![1, 2]);
            match alert {
                Alert::MountSecure(mount) => {
                    assert_eq!(mount.dev_name, "/dev/?[2Jsdb??1");
                    assert_eq!(mount.mount_point, "/media/?usb");
                }
                _ => panic!("a mount record must yield a mount alert"),
            }
        }
        _ => panic!("a full record must raise an alert"),
    }
    assert_eq!(
        mangling_notice(2),
        "Bouclier Bleu [Warning]: Sanitized 2 non-printable chars from kernel string"
    );
}

#[test]
fn alert_fields_follow_the_record() {
    let mut record = Vec::new();
    number(&mut record, 77);
    text(&mut record, b"/tmp/dropper", 4096);
    let alert = Alert::ExecBlock(ExecAlert::try_from_bytes(&record).ok().unwrap());
    let fields = alert.fields();
    assert_eq!(fields.len(), 2);
    assert_eq!(fields[0].name, "pid");
    assert!(matches!(fields[0].value, FieldValue::Number(77)));
    assert_eq!(fields[1].name, "path");
    match &fields[1].value {
        FieldValue::Text(path) => assert_eq!(path, "/tmp/dropper"),
        _ => panic!("a path is text"),
    }
}

#[test]
fn control_notice_names_module_and_state() {
    assert_eq!(
        control_notice("shield", false),
        "Bouclier Bleu [Control]: shield active state -> false"
    );
    assert_eq!(
        control_notice("shield", true),
        "Bouclier Bleu [Control]: shield active state -> true"
    );
}

#[test]
fn heuristics_name_their_techniques() {
    assert_eq!(Heuristic::RenameEntropy.mitre().to_vec(), vec!["T1486"]);
    assert_eq!(Heuristic::PtraceBlock.mitre().to_vec(), vec!["T1055", "T1003.008", "T1068"]);
    assert_eq!(Heuristic::UsernsRestrict.slug(), "userns_restrict");
}

#[test]
fn reports_stay_on_one_printable_line() {
    let module = HeuristicModule::new(Heuristic::UsernsRestrict);
    let mut record = Vec::new();
    number(&mut record, 6);
    number(&mut record, 99);
    text(&mut record, b"a\nBouclier Bleu [INFO]: all is well\x1b[2K\r", 64);
    match module.process_event(&record) {
        Outcome::Raised { alert, .. } => {
            assert!(alert.report().chars().all(|c| (' '..='~').contains(&c)));
            assert!(alert.report().contains("a?Bouclier Bleu [INFO]: all is well?[2K?"));
        }
        _ => panic!("a full record must raise an alert"),
    }
}

#[test]
fn texts_of_alerts_are_no_longer_than_their_fields() {
    let full = vec![0xffu8; 4360];
    match HeuristicModule::new(Heuristic::RenameEntropy).process_event(&full) {
        Outcome::Raised { alert: Alert::RenameEntropy(rename), .. } => {
            assert_eq!(rename.full_path.len(), 4096 + 1 + 256);
        }
        _ => panic!("a full record must raise an alert"),
    }
    match HeuristicModule::new(Heuristic::MountSecure).process_event(&full[..836]) {
        Outcome::Raised { alert: Alert::MountSecure(mount), .. } => {
            assert_eq!(mount.dev_name.len(), 256);
            assert_eq!(mount.fs_type.len(), 64);
            assert_eq!(mount.mount_point.len(), 512);
        }
        _ => panic!("a full record must raise an alert"),
    }
}
