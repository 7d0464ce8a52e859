use buildbench::config::{Features, Profile};
use buildbench::timing::{
    classify_line, parse_diagnostics, parse_duration, Duration, LineClass, StreamError,
};

fn stream(lines: &[&str]) -> Vec<Vec<u8>> {
    lines.iter().map(|l| l.as_bytes().to_vec()).collect()
}

fn secs_f64(d: &Duration) -> f64 {
    d.secs as f64 + d.nanos as f64 / 1e9
}

#[test]
fn test_parse_duration_exact() {
    assert_eq!(parse_duration(b"12.345s"), Some(Duration { secs: 12, nanos: 345_000_000 }));
    assert_eq!(parse_duration(b"0.400s"), Some(Duration { secs: 0, nanos: 400_000_000 }));
    assert_eq!(parse_duration(b"2.010s"), Some(Duration { secs: 2, nanos: 10_000_000 }));
    assert_eq!(parse_duration(b"0.0s"), Some(Duration { secs: 0, nanos: 0 }));
}

#[test]
fn test_parse_duration_rejects_bad_shapes() {
    assert_eq!(parse_duration(b"5s"), None);
    assert_eq!(parse_duration(b".5s"), None);
    assert_eq!(parse_duration(b"5.s"), None);
    assert_eq!(parse_duration(b"5.0"), None);
    assert_eq!(parse_duration(b"s"), None);
    assert_eq!(parse_duration(b""), None);
    assert_eq!(parse_duration(b"1.2ss"), None);
    assert_eq!(parse_duration(b"1,2s"), None);
}

#[test]
fn test_parse_duration_truncates_past_nine_digits() {
    assert_eq!(
        parse_duration(b"1.2345678901s"),
        Some(Duration { secs: 1, nanos: 234_567_890 })
    );
}

#[test]
fn test_parse_duration_rejects_out_of_range_seconds() {
    assert_eq!(parse_duration(b"18446744073709551615.0s"), Some(Duration {
        secs: u64::MAX,
        nanos: 0,
    }));
    assert_eq!(parse_duration(b"18446744073709551616.0s"), None);
    assert_eq!(parse_duration(b"99999999999999999999999.0s"), None);
}

#[test]
fn test_classify_completed_line() {
    match classify_line(b"    Completed foo v1.0.0 in 1.200s") {
        LineClass::UnitCompleted { name, version, duration } => {
            assert_eq!(name, b"foo".to_vec());
            assert_eq!(version, b"v1.0.0".to_vec());
            assert_eq!(duration, b"1.200s".to_vec());
        },
        _ => panic!("expected a unit-completed line"),
    }
}

#[test]
fn test_classify_finished_line() {
    match classify_line(b"    Finished release [optimized] target(s) in 2.010s") {
        LineClass::RunFinished { duration } => {
            assert_eq!(duration, b"2.010s".to_vec());
        },
        _ => panic!("expected a finished line"),
    }
}

#[test]
fn test_classify_finished_line_with_spaced_flags() {
    match classify_line("   Finished dev [unoptimized + debuginfo] target(s) in 0.5s".as_bytes()) {
        LineClass::RunFinished { duration } => {
            assert_eq!(duration, b"0.5s".to_vec());
        },
        _ => panic!("expected a finished line"),
    }
}

#[test]
fn test_classify_unrelated_lines() {
    assert!(matches!(classify_line(b""), LineClass::Unrelated));
    assert!(matches!(classify_line(b"warning: unused import"), LineClass::Unrelated));
    assert!(matches!(classify_line(b"   Compiling foo v1.0.0"), LineClass::Unrelated));
    assert!(matches!(classify_line(b"Completed"), LineClass::Unrelated));
    assert!(matches!(classify_line(b"Completed foo"), LineClass::Unrelated));
    assert!(matches!(classify_line(b"Completed foo v1.0.0 at 1.2s"), LineClass::Unrelated));
    assert!(matches!(classify_line(b"Finished something"), LineClass::Unrelated));
}

#[test]
fn test_two_unit_stream_with_candidate_bar() {
    let lines = stream(&[
        "Completed foo v1.0.0 in 1.200s",
        "Completed bar v0.2.0 in 0.400s",
        "Finished release [optimized] target(s) in 2.010s",
    ]);
    let rec = parse_diagnostics(b"bar", Profile::Release, Features::Defaults, &lines).unwrap();
    assert_eq!(rec.units, 2);
    assert_eq!(secs_f64(&rec.self_time), 0.400);
    assert_eq!(secs_f64(&rec.total_time), 2.010);
    assert_eq!(rec.name, b"bar".to_vec());
}

#[test]
fn test_empty_stream_yields_zero_record() {
    let lines: Vec<Vec<u8>> = Vec::new();
    let rec = parse_diagnostics(b"bar", Profile::Release, Features::Defaults, &lines).unwrap();
    assert_eq!(rec.units, 0);
    assert_eq!(secs_f64(&rec.self_time), 0.0);
    assert_eq!(secs_f64(&rec.total_time), 0.0);
}

#[test]
fn test_unrelated_lines_are_ignored() {
    let lines = stream(&[
        "   Compiling bar v0.2.0",
        "warning: something",
        "Completed bar v0.2.0 in 0.400s",
        "",
        "Finished release [optimized] target(s) in 1.000s",
    ]);
    let rec = parse_diagnostics(b"bar", Profile::Release, Features::Defaults, &lines).unwrap();
    assert_eq!(rec.units, 1);
    assert_eq!(secs_f64(&rec.self_time), 0.400);
    assert_eq!(secs_f64(&rec.total_time), 1.000);
}

#[test]
fn test_repeated_candidate_keeps_most_recent() {
    let lines = stream(&[
        "Completed bar v0.2.0 in 0.400s",
        "Completed bar v0.2.0 in 0.700s",
    ]);
    let rec = parse_diagnostics(b"bar", Profile::Release, Features::Defaults, &lines).unwrap();
    assert_eq!(rec.units, 2);
    assert_eq!(secs_f64(&rec.self_time), 0.700);
}

#[test]
fn test_other_units_malformed_durations_still_count() {
    let lines = stream(&[
        "Completed other v1.0.0 in forever",
        "Completed bar v0.2.0 in 0.400s",
    ]);
    let rec = parse_diagnostics(b"bar", Profile::Release, Features::Defaults, &lines).unwrap();
    assert_eq!(rec.units, 2);
    assert_eq!(secs_f64(&rec.self_time), 0.400);
}

#[test]
fn test_malformed_candidate_duration_fails_the_parse() {
    let lines = stream(&["Completed bar v0.2.0 in forever"]);
    let r = parse_diagnostics(b"bar", Profile::Release, Features::Defaults, &lines);
    assert_eq!(r.unwrap_err(), StreamError::MalformedDuration);
}

#[test]
fn test_malformed_finished_duration_fails_the_parse() {
    let lines = stream(&["Finished release [optimized] target(s) in 2s"]);
    let r = parse_diagnostics(b"bar", Profile::Release, Features::Defaults, &lines);
    assert_eq!(r.unwrap_err(), StreamError::MalformedDuration);
}

#[test]
fn test_record_carries_profile_and_features() {
    let lines: Vec<Vec<u8>> = Vec::new();
    let rec = parse_diagnostics(b"x", Profile::Dev, Features::NoDefaults, &lines).unwrap();
    assert!(matches!(rec.profile, Profile::Dev));
    assert!(matches!(rec.features, Features::NoDefaults));
}
