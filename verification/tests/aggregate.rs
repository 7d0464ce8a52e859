use buildbench::aggregate::{collect_records, plan_jobs};
use buildbench::config::{Features, Profile};
use buildbench::manifest::Candidate;
use buildbench::timing::{Duration, TimingRecord};

fn cand(name: &str, version: &str) -> Candidate {
    Candidate { name: name.as_bytes().to_vec(), version: version.as_bytes().to_vec() }
}

fn record(name: &str, units: u32) -> TimingRecord {
    TimingRecord {
        name: name.as_bytes().to_vec(),
        profile: Profile::Release,
        features: Features::Defaults,
        total_time: Duration { secs: 1, nanos: 0 },
        self_time: Duration { secs: 0, nanos: 500_000_000 },
        units,
    }
}

#[test]
fn test_plan_is_cartesian_in_nesting_order() {
    let candidates = vec![cand("a", "1.0"), cand("b", "2.0")];
    let profiles = vec![Profile::Dev, Profile::Release];
    let features = vec![Features::Defaults, Features::NoDefaults];
    let allowed: Vec<Vec<u8>> = Vec::new();
    let jobs = plan_jobs(&candidates, &profiles, &features, &allowed);
    assert_eq!(jobs.len(), 8);
    let spelled: Vec<(Vec<u8>, &str, &str)> = jobs
        .iter()
        .map(|j| (j.candidate.name.clone(), j.profile.as_str(), j.features.as_str()))
        .collect();
    assert_eq!(
        spelled,
        vec![
            (b"a".to_vec(), "dev", "defaults"),
            (b"a".to_vec(), "dev", "no-defaults"),
            (b"a".to_vec(), "release", "defaults"),
            (b"a".to_vec(), "release", "no-defaults"),
            (b"b".to_vec(), "dev", "defaults"),
            (b"b".to_vec(), "dev", "no-defaults"),
            (b"b".to_vec(), "release", "defaults"),
            (b"b".to_vec(), "release", "no-defaults"),
        ]
    );
}

#[test]
fn test_plan_carries_versions() {
    let candidates = vec![cand("glam", "0.8.6")];
    let jobs = plan_jobs(
        &candidates,
        &vec![Profile::Release],
        &vec![Features::Defaults],
        &Vec::new(),
    );
    assert_eq!(jobs.len(), 1);
    assert_eq!(jobs[0].candidate.version, b"0.8.6".to_vec());
}

#[test]
fn test_allow_list_restricts_candidates() {
    let candidates = vec![cand("a", "1.0"), cand("b", "2.0"), cand("c", "3.0")];
    let profiles = vec![Profile::Release];
    let features = vec![Features::Defaults];
    let allowed = vec![b"b".to_vec()];
    let jobs = plan_jobs(&candidates, &profiles, &features, &allowed);
    assert_eq!(jobs.len(), 1);
    assert_eq!(jobs[0].candidate.name, b"b".to_vec());
}

#[test]
fn test_empty_allow_list_admits_all() {
    let candidates = vec![cand("a", "1.0"), cand("b", "2.0")];
    let jobs = plan_jobs(
        &candidates,
        &vec![Profile::Release],
        &vec![Features::Defaults],
        &Vec::new(),
    );
    assert_eq!(jobs.len(), 2);
}

#[test]
fn test_one_failed_job_leaves_five_records_in_order() {
    // A 3-candidate x 2-profile x 1-feature-set matrix: six jobs, the
    // second of which fails.
    let outcomes = vec![
        Some(record("a", 1)),
        None,
        Some(record("b", 3)),
        Some(record("b", 4)),
        Some(record("c", 5)),
        Some(record("c", 6)),
    ];
    let records = collect_records(&outcomes);
    assert_eq!(records.len(), 5);
    let units: Vec<u32> = records.iter().map(|r| r.units).collect();
    assert_eq!(units, vec![1, 3, 4, 5, 6]);
}

#[test]
fn test_all_failed_jobs_leave_no_records() {
    let outcomes: Vec<Option<TimingRecord>> = vec![None, None];
    assert_eq!(collect_records(&outcomes).len(), 0);
}
