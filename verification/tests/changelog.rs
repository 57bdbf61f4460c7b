use truent::changelog::{
    generate_v0_3_0_changelog, APIDocGenerator, ChangelogGenerator, ExportDoc, ModuleDoc,
    ReleaseVersion,
};

#[test]
fn release_version_structure() {
    let mut release = ReleaseVersion::new(
        "1.0.0".to_string(),
        "2024-01-01".to_string(),
        "major".to_string(),
    );

    release.add_feature("New feature".to_string());
    assert_eq!(release.features.len(), 1);
}

#[test]
fn changelog_generator() {
    let mut gen = ChangelogGenerator::new();
    let release = ReleaseVersion::new(
        "0.1.0".to_string(),
        "2024-01-01".to_string(),
        "initial".to_string(),
    );

    gen.add_release(release);
    let changelog = gen.generate();
    assert!(changelog.contains("0.1.0"));
}

#[test]
fn api_doc_generator() {
    let mut gen = APIDocGenerator::new();
    let module = ModuleDoc {
        name: "detectors".to_string(),
        description: "Vulnerability detectors".to_string(),
        exports: vec![ExportDoc {
            name: "detect_reentrancy".to_string(),
            doc: "Detects reentrancy vulnerabilities".to_string(),
            since_version: "0.1.0".to_string(),
        }],
    };

    gen.add_module(module);
    let doc = gen.generate();
    assert!(doc.contains("detect_reentrancy"));
}

#[test]
fn v0_3_0_changelog() {
    let changelog = generate_v0_3_0_changelog();
    assert!(changelog.contains("0.3.0"));
    assert!(changelog.contains("25 new vulnerability detectors"));
}

#[test]
fn release_lookup_by_version() {
    let mut gen = ChangelogGenerator::new();
    gen.add_release(ReleaseVersion::new("0.2.0".to_string(), "2024-02-01".to_string(), "minor".to_string()));
    assert!(gen.get_release("0.2.0").is_some());
    assert!(gen.get_release("9.9.9").is_none());
}
