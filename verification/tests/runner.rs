use buildbench::config::{Features, Profile};
use buildbench::runner::{artifact_source_name, build_args, build_command, report_artifact_name};

#[test]
fn test_build_command_is_cargo() {
    assert_eq!(build_command(), "cargo");
}

#[test]
fn test_build_args_for_dev() {
    assert_eq!(build_args(Profile::Dev), vec!["+nightly", "build", "-Z", "timings=html,info"]);
}

#[test]
fn test_build_args_for_release() {
    assert_eq!(
        build_args(Profile::Release),
        vec!["+nightly", "build", "-Z", "timings=html,info", "--release"]
    );
}

#[test]
fn test_artifact_source_name() {
    assert_eq!(artifact_source_name(), b"cargo-timing.html".to_vec());
}

#[test]
fn test_report_artifact_name_spells_the_job() {
    assert_eq!(
        report_artifact_name(b"glam", Profile::Release, Features::Defaults),
        b"cargo-timing-glam-release-defaults.html".to_vec()
    );
    assert_eq!(
        report_artifact_name(b"cgmath", Profile::Dev, Features::NoDefaults),
        b"cargo-timing-cgmath-dev-no-defaults.html".to_vec()
    );
}
