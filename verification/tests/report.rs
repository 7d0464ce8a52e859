use buildbench::config::{Features, Profile};
use buildbench::report::{fmt_duration_tenths, report_rows, report_titles};
use buildbench::timing::{Duration, TimingRecord};

fn record(
    name: &str,
    profile: Profile,
    features: Features,
    total: Duration,
    own: Duration,
    units: u32,
) -> TimingRecord {
    TimingRecord {
        name: name.as_bytes().to_vec(),
        profile,
        features,
        total_time: total,
        self_time: own,
        units,
    }
}

#[test]
fn test_duration_cells_round_to_tenths() {
    assert_eq!(fmt_duration_tenths(&Duration { secs: 2, nanos: 10_000_000 }), b"2.0".to_vec());
    assert_eq!(fmt_duration_tenths(&Duration { secs: 0, nanos: 400_000_000 }), b"0.4".to_vec());
    assert_eq!(fmt_duration_tenths(&Duration { secs: 12, nanos: 345_000_000 }), b"12.3".to_vec());
    assert_eq!(fmt_duration_tenths(&Duration { secs: 0, nanos: 50_000_000 }), b"0.1".to_vec());
    assert_eq!(fmt_duration_tenths(&Duration { secs: 0, nanos: 960_000_000 }), b"1.0".to_vec());
    assert_eq!(fmt_duration_tenths(&Duration { secs: 0, nanos: 0 }), b"0.0".to_vec());
}

#[test]
fn test_titles_hide_single_valued_axes() {
    let titles = report_titles(&vec![Profile::Release], &vec![Features::Defaults]);
    assert_eq!(
        titles,
        vec![b"crate".to_vec(), b"total (s)".to_vec(), b"self (s)".to_vec(), b"units".to_vec()]
    );
}

#[test]
fn test_titles_show_exercised_axes() {
    let titles = report_titles(
        &vec![Profile::Dev, Profile::Release],
        &vec![Features::Defaults, Features::NoDefaults],
    );
    assert_eq!(
        titles,
        vec![
            b"crate".to_vec(),
            b"profile".to_vec(),
            b"features".to_vec(),
            b"total (s)".to_vec(),
            b"self (s)".to_vec(),
            b"units".to_vec(),
        ]
    );
}

#[test]
fn test_rows_follow_title_layout() {
    let records = vec![record(
        "glam",
        Profile::Release,
        Features::Defaults,
        Duration { secs: 2, nanos: 10_000_000 },
        Duration { secs: 0, nanos: 400_000_000 },
        17,
    )];
    let rows = report_rows(&vec![Profile::Release], &vec![Features::Defaults], &records);
    assert_eq!(rows.len(), 1);
    assert_eq!(
        rows[0],
        vec![b"glam".to_vec(), b"2.0".to_vec(), b"0.4".to_vec(), b"17".to_vec()]
    );
}

#[test]
fn test_rows_with_both_axes_shown() {
    let records = vec![
        record(
            "glam",
            Profile::Dev,
            Features::NoDefaults,
            Duration { secs: 1, nanos: 0 },
            Duration { secs: 0, nanos: 500_000_000 },
            3,
        ),
        record(
            "cgmath",
            Profile::Release,
            Features::Defaults,
            Duration { secs: 0, nanos: 960_000_000 },
            Duration { secs: 0, nanos: 120_000_000 },
            21,
        ),
    ];
    let rows = report_rows(
        &vec![Profile::Dev, Profile::Release],
        &vec![Features::Defaults, Features::NoDefaults],
        &records,
    );
    assert_eq!(rows.len(), 2);
    assert_eq!(
        rows[0],
        vec![
            b"glam".to_vec(),
            b"dev".to_vec(),
            b"no-defaults".to_vec(),
            b"1.0".to_vec(),
            b"0.5".to_vec(),
            b"3".to_vec(),
        ]
    );
    assert_eq!(
        rows[1],
        vec![
            b"cgmath".to_vec(),
            b"release".to_vec(),
            b"defaults".to_vec(),
            b"1.0".to_vec(),
            b"0.1".to_vec(),
            b"21".to_vec(),
        ]
    );
}
