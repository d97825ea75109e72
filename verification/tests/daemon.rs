use bouclier_bleu::config::{DaemonConfig, LoadAction, LoadEvent, DEFAULTS_NOTICE, SEARCH_PATHS};
use bouclier_bleu::engine::{
    autoload, get_capacities, is_post_2025_vfs, kernel_state, watch_of, BpfEngine,
};
use bouclier_bleu::catalog::Watch;
use bouclier_bleu::module::{build_registry, Outcome, SecurityModule};
use bouclier_bleu::pipeline::{respond, route, Effect, TelemetryPipeline, ALERTS_MAP};
use bouclier_bleu::secure_dir::{DirAction, DirEvent, DirMeta, Purpose, SecureDirectory};
use bouclier_bleu::skeleton::{module_name, snake_to_camel, OBJECT_SUFFIX, SOURCE_SUFFIX};
use bouclier_bleu::startup::{check_lsm, check_privilege, Gate};
use std::collections::HashMap;

fn meta(uid: u32, mode: u32) -> DirMeta {
    DirMeta { is_dir: true, is_file: false, is_symlink: false, uid, mode }
}

#[test]
fn a_secure_directory_is_used_as_it_is() {
    for purpose in [Purpose::Log, Purpose::Control] {
        let (mut walk, first) = SecureDirectory::new(purpose, "/d");
        assert!(first == DirAction::Create);
        let (action, notice) = walk.step(DirEvent::Created(Ok(())));
        assert!(action == DirAction::Inspect);
        assert_eq!(notice, "");
        let (action, notice) = walk.step(DirEvent::Inspected(Some(meta(0, 0o40700))));
        assert!(action == DirAction::Ready);
        assert_eq!(notice, "");
    }
}

#[test]
fn a_tainted_directory_is_wiped_and_rebuilt() {
    for tainted in [meta(1000, 0o40700), meta(0, 0o40777), meta(0, 0o40600)] {
        let (mut walk, _) = SecureDirectory::new(Purpose::Log, "/var/log/bouclier-bleu");
        walk.step(DirEvent::Created(Ok(())));
        let (action, notice) = walk.step(DirEvent::Inspected(Some(tainted)));
        assert!(action == DirAction::RemoveTree);
        assert_eq!(
            notice,
            "Bouclier Bleu [WARNING]: Log directory /var/log/bouclier-bleu has insecure permissions (Potential Pre-Staging Attack). Auto-remediating..."
        );
        assert!(walk.step(DirEvent::Removed(Ok(()))).0 == DirAction::Rebuild);
        let (action, notice) = walk.step(DirEvent::Rebuilt(Ok(())));
        assert!(action == DirAction::Ready);
        assert_eq!(notice, "Bouclier Bleu [INFO]: Log directory securely rebuilt.");
    }
}

#[test]
fn a_file_or_link_in_place_of_the_directory_is_removed_as_such() {
    let file = DirMeta { is_dir: false, is_file: true, is_symlink: false, uid: 1000, mode: 0o644 };
    let link = DirMeta { is_dir: false, is_file: false, is_symlink: true, uid: 0, mode: 0o120777 };
    for found in [file, link] {
        for purpose in [Purpose::Log, Purpose::Control] {
            let (mut walk, _) = SecureDirectory::new(purpose, "/d");
            let (action, _) = walk.step(DirEvent::Inspected(Some(found)));
            assert!(action == DirAction::RemoveFile);
        }
    }
    let (mut walk, _) = SecureDirectory::new(Purpose::Control, "/d");
    walk.step(DirEvent::Inspected(Some(link)));
    let (action, notice) = walk.step(DirEvent::Removed(Err("busy".to_string())));
    assert!(action == DirAction::GiveUp);
    assert_eq!(notice, "FATAL: Failed to remove compromised symlink/file: busy");
    let (mut walk, _) = SecureDirectory::new(Purpose::Control, "/d");
    walk.step(DirEvent::Inspected(Some(meta(1, 0o700))));
    let (_, notice) = walk.step(DirEvent::Removed(Err("busy".to_string())));
    assert_eq!(notice, "FATAL: Failed to wipe compromised IPC directory: busy");
}

#[test]
fn failures_of_the_walk_are_final_and_told() {
    let cases = [
        (Purpose::Control, DirEvent::Created(Err("e".to_string())), "FATAL: Failed to construct secure IPC directory: e"),
        (Purpose::Control, DirEvent::Inspected(None), "FATAL: Failed to verify IPC directory metadata."),
        (Purpose::Log, DirEvent::Inspected(None), "Bouclier Bleu [CRITICAL]: Failed to verify log directory metadata. Sinking telemetry to fallback."),
        (Purpose::Log, DirEvent::Removed(Err("e".to_string())), "Bouclier Bleu [CRITICAL]: Failed to wipe compromised log directory: e. Sinking telemetry to fallback."),
        (Purpose::Log, DirEvent::Rebuilt(Err("e".to_string())), "Bouclier Bleu [CRITICAL]: Failed to recreate secure log directory: e. Sinking telemetry to fallback."),
        (Purpose::Control, DirEvent::Rebuilt(Err("e".to_string())), "FATAL: Failed to recreate secure IPC directory post-remediation: e"),
    ];
    for (purpose, event, line) in cases {
        let (mut walk, _) = SecureDirectory::new(purpose, "/d");
        let (action, notice) = walk.step(event);
        assert!(action == DirAction::GiveUp);
        assert_eq!(notice, line);
    }
    // A log directory that cannot be created may still be there.
    let (mut walk, _) = SecureDirectory::new(Purpose::Log, "/d");
    let (action, notice) = walk.step(DirEvent::Created(Err("e".to_string())));
    assert!(action == DirAction::Inspect);
    assert_eq!(notice, "Bouclier Bleu [Warning]: Failed to securely create log directory: e");
}

#[test]
fn configuration_sets_and_overrides_states() {
    let mut config = DaemonConfig::default();
    assert_eq!(config.get("shield"), None);
    assert!(!config.is_enabled("shield"));
    config.set("shield", true);
    config.set("exec_block", false);
    assert!(config.is_enabled("shield"));
    assert_eq!(config.get("exec_block"), Some(false));
    config.set("shield", false);
    assert_eq!(config.get("shield"), Some(false));
}

#[test]
fn configuration_is_loaded_from_a_file_of_root() {
    let (mut loader, first) = DaemonConfig::load(false);
    assert!(matches!(first, LoadAction::Probe(0)));
    assert!(matches!(loader.step(LoadEvent::Existence(true)), (LoadAction::CheckOwner, None)));
    assert!(matches!(loader.step(LoadEvent::Owner(Some(0))), (LoadAction::Read, None)));
    assert!(matches!(loader.step(LoadEvent::Contents(Ok(()))), (LoadAction::Parse, None)));
    let (action, line) = loader.step(LoadEvent::Parsed(Ok(())));
    assert!(matches!(action, LoadAction::Use));
    assert_eq!(line, Some("· [Config] Loaded configuration from /etc/bouclier-bleu/config.toml".to_string()));
    assert_eq!(SEARCH_PATHS, ["/etc/bouclier-bleu/config.toml"]);
}

#[test]
fn untrusted_configuration_stops_the_daemon() {
    let (mut loader, _) = DaemonConfig::load(false);
    match loader.step(LoadEvent::Owner(Some(1000))).0 {
        LoadAction::Abort(reason) => assert_eq!(
            reason,
            "FATAL: Configuration file /etc/bouclier-bleu/config.toml is not owned by root! Aborting to prevent privilege escalation."
        ),
        _ => panic!("a foreign file must stop the daemon"),
    }
    let (mut loader, _) = DaemonConfig::load(false);
    match loader.step(LoadEvent::Parsed(Err("bad".to_string()))).0 {
        LoadAction::Abort(reason) => assert_eq!(
            reason,
            "FATAL: Failed to parse TOML in /etc/bouclier-bleu/config.toml: bad. Aborting to prevent a fail-open state."
        ),
        _ => panic!("a malformed file must stop the daemon"),
    }
}

#[test]
fn search_goes_on_past_missing_and_unreadable_files() {
    let (mut loader, _) = DaemonConfig::load(true);
    let (action, line) = loader.step(LoadEvent::Contents(Err("denied".to_string())));
    assert!(matches!(action, LoadAction::Probe(1)));
    assert_eq!(line, Some("· [Warning] Failed to read /etc/bouclier-bleu/config.toml: denied".to_string()));
    assert!(matches!(loader.step(LoadEvent::Existence(false)), (LoadAction::Default, None)));
    let (mut loader, _) = DaemonConfig::load(false);
    assert!(matches!(loader.step(LoadEvent::Existence(false)), (LoadAction::Default, None)));
    let (mut loader, _) = DaemonConfig::load(false);
    assert!(matches!(loader.step(LoadEvent::Owner(None)), (LoadAction::Read, None)));
    assert!(DEFAULTS_NOTICE.starts_with("· [Config] No configuration file found."));
}

#[test]
fn kernel_releases_are_told_apart() {
    for (release, modern) in [
        ("6.12.0-azure\n", true),
        ("6.11.9", false),
        ("5.15.0-91-generic\n", false),
        ("7.0.1", true),
        ("6.2", false),
        ("6", true),
        ("", true),
        ("six.twelve", true),
        ("6.12-rc1", true),
        ("4294967296.1", true),
        ("+5.+4", false),
    ] {
        assert_eq!(is_post_2025_vfs(Some(release)), modern, "{}", release);
    }
    assert!(is_post_2025_vfs(None));
}

#[test]
fn one_version_of_each_hook_is_loaded() {
    for post in [true, false] {
        assert_eq!(autoload("exec_block", "exec_block_vfs_mkdir_exit_new", post), Some(post));
        assert_eq!(autoload("exec_block", "exec_block_vfs_mkdir_exit_old", post), Some(!post));
        assert_eq!(autoload("exec_block", "exec_block_vfs_rename_exit_new", post), Some(true));
        assert_eq!(autoload("exec_block", "exec_block_vfs_rename_exit_old", post), Some(false));
        assert_eq!(autoload("exec_block", "exec_block_bprm", post), None);
        assert_eq!(autoload("shield", "exec_block_vfs_mkdir_exit_new", post), None);
    }
}

#[test]
fn kernel_state_is_a_native_flag() {
    assert_eq!(kernel_state(true), (0u32.to_ne_bytes(), 1u32.to_ne_bytes()));
    assert_eq!(kernel_state(false), (0u32.to_ne_bytes(), 0u32.to_ne_bytes()));
}

#[test]
fn broker_keeps_one_handle_per_module() {
    let mut engine = BpfEngine::new();
    assert!(engine.get_skeleton("shield").is_none());
    assert_eq!(engine.record_load("shield", Some(1)), "· Loaded and Attached eBPF module: shield");
    assert_eq!(engine.record_load("strict_wx", None), "· [Fatal] Failed to load module strict_wx");
    engine.insert("exec_block", 2);
    engine.insert("shield", 3);
    assert_eq!(engine.get_skeleton("shield"), Some(&3));
    assert_eq!(engine.get_skeleton("exec_block"), Some(&2));
    assert_eq!(engine.get_skeleton("strict_wx"), None);
}

#[test]
fn modules_start_in_their_configured_state() {
    let mut engine = BpfEngine::new();
    engine.insert("exec_block", ());
    engine.insert("shield", ());
    engine.insert("io_restrict", ());
    let mut config = DaemonConfig::default();
    config.set("exec_block", true);
    config.set("strict_wx", false);
    let mut registry = build_registry();
    let steps = engine.initialize_active_modules(&mut registry, &config);
    assert_eq!(steps.len(), 3);
    assert_eq!((steps[0].slug.as_str(), steps[0].is_active, steps[0].module), ("exec_block", true, Some(0)));
    assert_eq!((steps[1].slug.as_str(), steps[1].is_active, steps[1].module), ("shield", false, Some(2)));
    assert_eq!((steps[2].slug.as_str(), steps[2].is_active, steps[2].module), ("io_restrict", false, None));
    assert!(registry[0].status());
    assert!(!registry[2].status());
    // Not loaded: left as it was.
    assert!(registry[4].status());
}

#[test]
fn the_configuration_dictates_the_boot_state_of_every_module() {
    let slugs = ["exec_block", "dump_restrict", "shield", "mount_secure"];
    let mut engine = BpfEngine::new();
    for slug in slugs {
        engine.insert(slug, ());
    }
    let mut config = DaemonConfig::default();
    config.set("dump_restrict", false);
    config.set("mount_secure", true);
    let mut registry = build_registry();
    let steps = engine.initialize_active_modules(&mut registry, &config);
    let mut kernel = HashMap::new();
    for step in &steps {
        kernel.insert(step.slug.clone(), kernel_state(step.is_active).1);
    }
    assert_eq!(kernel.len(), slugs.len());
    // What is not mentioned is off, and nothing starts in a state of its own.
    for (slug, active) in [("exec_block", 0u32), ("dump_restrict", 0), ("shield", 0), ("mount_secure", 1)] {
        assert_eq!(kernel[slug], active.to_ne_bytes());
        for module in registry.iter().filter(|module| module.slug() == slug) {
            assert_eq!(module.status(), active == 1);
        }
    }
}

#[test]
fn capacities_follow_the_registry() {
    let registry = build_registry();
    assert_eq!(get_capacities("shield", &registry, &[]), Some(("protected_files", 2)));
    assert_eq!(get_capacities("mount_secure", &registry, &[]), None);
    assert_eq!(get_capacities("nonsense", &registry, &[]), None);
    assert!(matches!(watch_of("exec_block", &registry), Watch::Scan { .. }));
    assert!(matches!(watch_of("nonsense", &registry), Watch::Nothing));
}

#[test]
fn pipeline_is_fed_by_modules_with_an_alerts_map() {
    let mut pipeline = TelemetryPipeline::new();
    assert!(pipeline.is_silent());
    assert_eq!(
        pipeline.stage("shield", false),
        Some("· [Warning] Standard 'alerts' map not found in module: shield".to_string())
    );
    assert!(pipeline.is_silent());
    assert_eq!(pipeline.stage("exec_block", true), None);
    assert!(!pipeline.is_silent());
    assert_eq!(pipeline.len(), 1);
    assert_eq!(pipeline.source(0), "exec_block");
    assert_eq!(ALERTS_MAP, "alerts");
}

#[test]
fn records_are_routed_by_slug() {
    let registry = build_registry();
    assert!(matches!(route(&registry, "strict_wx", &[0; 20]), Some(Outcome::Raised { .. })));
    assert!(matches!(route(&registry, "strict_wx", &[0; 19]), Some(Outcome::Malformed(_))));
    assert!(route(&registry, "io_restrict", &[0; 24]).is_none());
}

#[test]
fn daemon_asks_for_root_and_an_enforcing_kernel() {
    assert!(matches!(check_privilege(0), Gate::Open));
    match check_privilege(1000) {
        Gate::Shut(lines) => assert_eq!(
            lines.to_vec(),
            vec!["Bouclier Bleu [Fatal]: The core daemon must be executed as root (UID 0)."]
        ),
        _ => panic!("only root may run the daemon"),
    }
    assert!(matches!(check_lsm(Ok("lockdown,yama,bpf".to_string())), Gate::Open));
    match check_lsm(Ok("lockdown,yama".to_string())) {
        Gate::Shut(lines) => {
            assert_eq!(lines[0], "Bouclier Bleu [Fatal]: eBPF LSM is not active on this host.");
            assert_eq!(lines.len(), 3);
        }
        _ => panic!("a kernel without the module must be refused"),
    }
    match check_lsm(Err("denied".to_string())) {
        Gate::Unverified(line) => assert_eq!(
            line,
            "Bouclier Bleu [Warning]: Could not verify active Security Modules (denied)."
        ),
        _ => panic!("an unreadable list is only worth a warning"),
    }
}

#[test]
fn program_names_follow_their_sources() {
    assert_eq!(snake_to_camel("exec_block"), "ExecBlock");
    assert_eq!(snake_to_camel("shield"), "Shield");
    assert_eq!(snake_to_camel("a__b_"), "AB");
    assert_eq!(snake_to_camel("éa_ßb"), "ÉaSSb");
    assert_eq!(snake_to_camel(""), "");
    assert_eq!(module_name("exec_block.bpf.c", SOURCE_SUFFIX), Some("exec_block".to_string()));
    assert_eq!(module_name("a.bpf.c.bpf.c", SOURCE_SUFFIX), Some("a".to_string()));
    assert_eq!(module_name("common.c", SOURCE_SUFFIX), None);
    assert_eq!(module_name("vmlinux.h", SOURCE_SUFFIX), None);
    assert_eq!(module_name("exec_block.bpf.o", OBJECT_SUFFIX), Some("exec_block".to_string()));
    assert_eq!(module_name("exec_block.bpf.c", OBJECT_SUFFIX), None);
}

#[test]
fn alerts_reach_the_siem_before_anything_else_is_done() {
    let registry = build_registry();
    let mut record = vec![0u8; 4360];
    record[4..8].copy_from_slice(&42u32.to_ne_bytes());
    record[8..15].copy_from_slice("/h\né/e".as_bytes());
    record[4104..4107].copy_from_slice(b"x.y");
    let outcome = route(&registry, "rename_entropy", &record).unwrap();
    let effects = respond(outcome, 7, "rename_entropy");
    assert_eq!(effects.len(), 4);
    match &effects[0] {
        Effect::Warn(line) => assert!(line.contains("Sanitized 1 non-printable")),
        _ => panic!("the mangled path comes first"),
    }
    match &effects[1] {
        Effect::Emit(line) => assert_eq!(
            line,
            "{\"@timestamp\":7,\"event_source\":\"rename_entropy\",\"pid\":0,\"ppid\":42,\"full_path\":\"/h??/e/x.y\"}\n"
        ),
        _ => panic!("the event comes second"),
    }
    assert!(matches!(&effects[2], Effect::Report(_)));
    assert!(matches!(&effects[3], Effect::Strike(42)));

    // A string that is mangled but not shortened calls for no warning.
    record[8..15].copy_from_slice(b"/ho\nme\0");
    let outcome = route(&registry, "rename_entropy", &record).unwrap();
    assert!(matches!(&respond(outcome, 7, "rename_entropy")[0], Effect::Emit(_)));

    let outcome = route(&registry, "strict_wx", &[0; 20]).unwrap();
    assert_eq!(respond(outcome, 7, "strict_wx").len(), 2);
    let outcome = route(&registry, "strict_wx", &[]).unwrap();
    assert!(matches!(&respond(outcome, 7, "strict_wx")[..], [Effect::Warn(_)]));
}
