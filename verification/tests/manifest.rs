use buildbench::manifest::{candidates_of, read_candidates, Candidate, DepEntry, DepSpec, ManifestError};

fn entry(name: &str, spec: DepSpec) -> DepEntry {
    DepEntry { name: name.as_bytes().to_vec(), spec }
}

fn versioned(name: &str, version: &str) -> DepEntry {
    entry(name, DepSpec::Table(Some(version.as_bytes().to_vec())))
}

#[test]
fn test_detailed_entries_become_candidates() {
    let entries = vec![
        versioned("cgmath", "0.17.0"),
        entry("serde", DepSpec::Bare(b"1.0".to_vec())),
        versioned("glam", "0.8.6"),
        entry("local", DepSpec::Table(None)),
        entry("ws", DepSpec::Inherited),
    ];
    let cs = candidates_of(&entries);
    assert_eq!(cs.len(), 2);
    assert_eq!(cs[0].name, b"cgmath".to_vec());
    assert_eq!(cs[0].version, b"0.17.0".to_vec());
    assert_eq!(cs[1].name, b"glam".to_vec());
    assert_eq!(cs[1].version, b"0.8.6".to_vec());
}

#[test]
fn test_path_only_entries_are_excluded() {
    // Three version-pinned tables and two path- or source-control-only
    // tables: exactly the three pinned ones come back.
    let entries = vec![
        versioned("a", "1.0"),
        entry("p1", DepSpec::Table(None)),
        versioned("b", "2.0"),
        entry("p2", DepSpec::Table(None)),
        versioned("c", "3.0"),
    ];
    let cs = candidates_of(&entries);
    assert_eq!(cs.len(), 3);
    let names: Vec<Vec<u8>> = cs.iter().map(|c| c.name.clone()).collect();
    assert_eq!(names, vec![b"a".to_vec(), b"b".to_vec(), b"c".to_vec()]);
}

#[test]
fn test_duplicate_names_keep_first() {
    let entries = vec![
        versioned("a", "1.0"),
        versioned("a", "2.0"),
        versioned("b", "0.1"),
    ];
    let cs = candidates_of(&entries);
    assert_eq!(cs.len(), 2);
    assert_eq!(cs[0].name, b"a".to_vec());
    assert_eq!(cs[0].version, b"1.0".to_vec());
    assert_eq!(cs[1].name, b"b".to_vec());
}

#[test]
fn test_read_candidates_from_toml() {
    let manifest = br#"
[package]
name = "mathbench"
version = "0.3.0"
edition = "2018"

[dependencies]
rand = "0.6.5"

[dependencies.cgmath]
version = "0.17.0"

[dependencies.glam]
version = "0.8.6"

[dependencies.localthing]
path = "../localthing"
"#;
    let cs = read_candidates(manifest).unwrap();
    assert_eq!(cs.len(), 2);
    assert_eq!(cs[0].name, b"cgmath".to_vec());
    assert_eq!(cs[0].version, b"0.17.0".to_vec());
    assert_eq!(cs[1].name, b"glam".to_vec());
    assert_eq!(cs[1].version, b"0.8.6".to_vec());
}

#[test]
fn test_read_candidates_inline_tables() {
    let manifest = br#"
[package]
name = "x"
version = "0.1.0"

[dependencies]
plain = "1.0"
pinned = { version = "0.2.1" }
pathdep = { path = "../pathdep" }
"#;
    let cs = read_candidates(manifest).unwrap();
    assert_eq!(cs.len(), 1);
    assert_eq!(cs[0].name, b"pinned".to_vec());
    assert_eq!(cs[0].version, b"0.2.1".to_vec());
}

#[test]
fn test_unparseable_manifest_is_fatal() {
    let r = read_candidates(b"this is [ not toml = =");
    assert_eq!(r.unwrap_err(), ManifestError::Unparseable);
}

#[test]
fn test_candidate_duplicate_is_equal() {
    let c = Candidate { name: b"glam".to_vec(), version: b"0.8.6".to_vec() };
    let d = c.duplicate();
    assert_eq!(d.name, c.name);
    assert_eq!(d.version, c.version);
}
