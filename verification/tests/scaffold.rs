use buildbench::config::Features;
use buildbench::scaffold::scaffold_files;

#[test]
fn test_descriptor_names_candidate_and_version() {
    let plan = scaffold_files(b"glam", b"0.8.6", Features::Defaults);
    let expected = "[package]\n\
                    name = \"mathbench-glam-buildtime\"\n\
                    version = \"0.1.0\"\n\
                    edition = \"2018\"\n\
                    [dependencies.glam]\n\
                    version = \"0.8.6\"\n";
    assert_eq!(plan.descriptor, expected.as_bytes().to_vec());
    assert_eq!(plan.source, b"\n".to_vec());
}

#[test]
fn test_descriptor_toggles_default_features() {
    let plan = scaffold_files(b"nalgebra", b"0.19.0", Features::NoDefaults);
    let expected = "[package]\n\
                    name = \"mathbench-nalgebra-buildtime\"\n\
                    version = \"0.1.0\"\n\
                    edition = \"2018\"\n\
                    [dependencies.nalgebra]\n\
                    version = \"0.19.0\"\n\
                    default-features = false\n";
    assert_eq!(plan.descriptor, expected.as_bytes().to_vec());
    assert_eq!(plan.source, b"\n".to_vec());
}

#[test]
fn test_scaffolding_twice_is_identical() {
    let once = scaffold_files(b"vek", b"0.9.10", Features::NoDefaults);
    let again = scaffold_files(b"vek", b"0.9.10", Features::NoDefaults);
    assert_eq!(once.descriptor, again.descriptor);
    assert_eq!(once.source, again.source);
}
