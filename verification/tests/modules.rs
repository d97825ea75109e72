use bouclier_bleu::heuristics::entropy::compute_entropy;
use bouclier_bleu::heuristics::rename_entropy::RenameAlert;
use bouclier_bleu::module::{build_registry, DefenseModule, SecurityModule};

#[test]
fn test_macro_generated_module_state() {
    let mut module = DefenseModule::new("Dummy Heuristic Engine", "dummy_heur");

    assert_eq!(module.name(), "Dummy Heuristic Engine");
    assert_eq!(module.slug(), "dummy_heur");

    assert!(module.status());

    module.toggle(false);
    assert!(!module.status(), "Module failed to toggle offline via SeqCst ordering");

    module.toggle(true);
    assert!(module.status(), "Module failed to toggle online via SeqCst ordering");
}

#[test]
fn test_build_registry_instantiation() {
    let registry = build_registry();
    assert!(!registry.is_empty(), "Registry failed to build the defense matrix");
}

#[test]
fn test_scaled_entropy_threshold() {
    let benign_file = "document.txt";
    let malicious_file = "a8f93j2x.locked";

    let benign_score = compute_entropy(benign_file.as_bytes());
    let malicious_score = compute_entropy(malicious_file.as_bytes());

    assert!(
        benign_score < 4300,
        "Benign file score {} breached the 4300 threshold constraint.",
        benign_score
    );

    assert!(
        malicious_score > benign_score,
        "Malicious entropy ({}) failed to exceed benign baseline ({}).",
        malicious_score,
        benign_score
    );
}

#[test]
fn test_try_from_bytes_size_constraint() {
    let undersized_payload = vec![0u8; 1024];

    let result = RenameAlert::try_from_bytes(&undersized_payload);

    assert!(result.is_err(), "Deserialization engine failed to reject undersized payload.");
    assert_eq!(
        result.err().unwrap(),
        "Telemetry payload violates minimum size constraints."
    );
}
