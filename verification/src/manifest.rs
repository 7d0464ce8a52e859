//! Reading benchmark candidates out of a package manifest.
//!
//! A manifest's dependency table maps names to either a bare
//! version-requirement string, a detailed table, or a workspace-inherited
//! stub.  Only detailed entries that pin an explicit version become
//! candidates: entries pinned by local path or source-control reference
//! alone have no published version to benchmark, and bare version strings
//! are not how this tool's own manifest declares its benchmark subjects.

use vstd::prelude::*;
use crate::text::slices_eq;

verus! {

/// How one manifest entry declares its dependency.
#[derive(Debug)]
pub enum DepSpec {
    /// A bare version-requirement string (`name = "1.2"`).
    Bare(Vec<u8>),
    /// A detailed table, with its `version` key when it has one.
    Table(Option<Vec<u8>>),
    /// Inherited from a workspace; no version of its own.
    Inherited,
}

/// One entry of a manifest's dependency table.
#[derive(Debug)]
pub struct DepEntry {
    pub name: Vec<u8>,
    pub spec: DepSpec,
}

/// The mathematical image of a dependency declaration.
pub enum DepSpecView {
    Bare(Seq<u8>),
    Table(Option<Seq<u8>>),
    Inherited,
}

/// The mathematical image of a dependency-table entry.
pub struct DepEntryView {
    pub name: Seq<u8>,
    pub spec: DepSpecView,
}

impl View for DepSpec {
    type V = DepSpecView;

    open spec fn view(&self) -> DepSpecView {
        match self {
            DepSpec::Bare(v) => DepSpecView::Bare(v@),
            DepSpec::Table(ov) => DepSpecView::Table(
                match ov {
                    Some(v) => Some(v@),
                    None => None,
                },
            ),
            DepSpec::Inherited => DepSpecView::Inherited,
        }
    }
}

impl DeepView for DepSpec {
    type V = DepSpecView;

    open spec fn deep_view(&self) -> DepSpecView {
        self.view()
    }
}

impl View for DepEntry {
    type V = DepEntryView;

    open spec fn view(&self) -> DepEntryView {
        DepEntryView { name: self.name@, spec: self.spec@ }
    }
}

impl DeepView for DepEntry {
    type V = DepEntryView;

    open spec fn deep_view(&self) -> DepEntryView {
        self.view()
    }
}

/// A dependency whose compile time can be benchmarked: a name and the exact
/// version the manifest pins it to.
#[derive(Debug)]
pub struct Candidate {
    pub name: Vec<u8>,
    pub version: Vec<u8>,
}

/// The mathematical image of a candidate.
pub struct CandidateView {
    pub name: Seq<u8>,
    pub version: Seq<u8>,
}

impl View for Candidate {
    type V = CandidateView;

    open spec fn view(&self) -> CandidateView {
        CandidateView { name: self.name@, version: self.version@ }
    }
}

impl DeepView for Candidate {
    type V = CandidateView;

    open spec fn deep_view(&self) -> CandidateView {
        self.view()
    }
}

impl Candidate {
    /// A copy of the candidate.
    pub fn duplicate(&self) -> (c: Candidate)
        ensures
            c@ == self@,
    {
        Candidate {
            name: vstd::slice::slice_to_vec(self.name.as_slice()),
            version: vstd::slice::slice_to_vec(self.version.as_slice()),
        }
    }
}

/// Why a manifest could not be read.
#[derive(Clone, Copy, PartialEq, Eq, Structural, Debug)]
pub enum ManifestError {
    /// The bytes are not a well-formed package manifest.
    Unparseable,
}

/// The dependency table that parsing the given manifest bytes yields, in
/// table order, or nothing when the bytes do not parse.  This names the
/// result of `cargo_toml::Manifest::from_slice`, which depends on the bytes
/// alone.
pub uninterp spec fn manifest_dependencies(bytes: Seq<u8>) -> Option<Seq<DepEntryView>>;

/// Relies on `cargo_toml::Manifest::from_slice`: it parses a manifest from
/// TOML bytes, with a dependency table that is a function of the bytes
/// alone, ordered by name; each dependency is a bare version-requirement
/// string, a detailed table (whose `version` key is optional), or a
/// workspace-inherited stub.
#[verifier::external_body]
fn parse_manifest(bytes: &[u8]) -> (r: Result<Vec<DepEntry>, ManifestError>)
    ensures
        match r {
            Ok(entries) => manifest_dependencies(bytes@) == Some(entries.deep_view()),
            Err(e) => manifest_dependencies(bytes@) is None && e == ManifestError::Unparseable,
        },
{
    let m = match cargo_toml::Manifest::from_slice(bytes) {
        Ok(m) => m,
        Err(_) => return Err(ManifestError::Unparseable),
    };
    Ok(m.dependencies.into_iter().map(|(name, dep)| DepEntry {
        name: name.into_bytes(),
        spec: match dep {
            cargo_toml::Dependency::Simple(v) => DepSpec::Bare(v.into_bytes()),
            cargo_toml::Dependency::Inherited(_) => DepSpec::Inherited,
            cargo_toml::Dependency::Detailed(d) => DepSpec::Table(d.version.map(String::into_bytes)),
        },
    }).collect())
}

/// The version under which an entry can be benchmarked: the `version` key of
/// a detailed table.  Bare, version-less and inherited entries yield none.
pub open spec fn entry_version(e: DepEntryView) -> Option<Seq<u8>> {
    match e.spec {
        DepSpecView::Table(v) => v,
        _ => None,
    }
}

/// The entry yields a candidate.
pub open spec fn is_versioned(e: DepEntryView) -> bool {
    entry_version(e) is Some
}

/// The candidates among `es`, in order, skipping entries whose name is in
/// `seen` or has already yielded a candidate.
pub open spec fn candidates_from(es: Seq<DepEntryView>, seen: Set<Seq<u8>>) -> Seq<CandidateView>
    decreases es.len(),
{
    if es.len() == 0 {
        Seq::empty()
    } else {
        let e = es.first();
        let rest = es.drop_first();
        match entry_version(e) {
            Some(v) => if seen.contains(e.name) {
                candidates_from(rest, seen)
            } else {
                seq![CandidateView { name: e.name, version: v }] + candidates_from(
                    rest,
                    seen.insert(e.name),
                )
            },
            None => candidates_from(rest, seen),
        }
    }
}

/// The ordered, deduplicated candidate list of a dependency table: one
/// candidate per version-pinned detailed entry, first occurrence of a name
/// winning.
pub open spec fn spec_candidates(es: Seq<DepEntryView>) -> Seq<CandidateView> {
    candidates_from(es, Set::empty())
}

/// Whether some candidate already carries this name.
fn contains_name(out: &Vec<Candidate>, name: &[u8]) -> (r: bool)
    ensures
        r <==> exists|k: int| 0 <= k < out@.len() && out@[k].name@ == name@,
{
    let mut k: usize = 0;
    while k < out.len()
        invariant
            0 <= k <= out@.len(),
            forall|j: int| 0 <= j < k ==> out@[j].name@ != name@,
        decreases out@.len() - k,
    {
        if slices_eq(out[k].name.as_slice(), name) {
            return true;
        }
        k = k + 1;
    }
    false
}

/// Filters a dependency table down to its ordered, deduplicated candidates.
pub fn candidates_of(entries: &Vec<DepEntry>) -> (r: Vec<Candidate>)
    ensures
        r.deep_view() == spec_candidates(entries.deep_view()),
{
    let ghost es = entries.deep_view();
    let mut out: Vec<Candidate> = Vec::new();
    let ghost seen = Set::<Seq<u8>>::empty();
    let mut i: usize = 0;
    proof {
        assert(es.skip(0) =~= es);
    }
    while i < entries.len()
        invariant
            0 <= i <= es.len(),
            es == entries.deep_view(),
            es.len() == entries@.len(),
            spec_candidates(es) == out.deep_view() + candidates_from(es.skip(i as int), seen),
            forall|nm: Seq<u8>|
                #[trigger] seen.contains(nm) <==> exists|k: int|
                    0 <= k < out@.len() && out@[k].name@ == nm,
        decreases es.len() - i,
    {
        proof {
            assert(es[i as int] == entries@[i as int]@);
            assert(es.skip(i as int).first() == es[i as int]);
            assert(es.skip(i as int).drop_first() =~= es.skip(i + 1));
        }
        let entry = &entries[i];
        match &entry.spec {
            DepSpec::Table(Some(v)) => {
                assert(entry_version(es[i as int]) == Some(v@));
                if !contains_name(&out, entry.name.as_slice()) {
                    proof {
                        assert(!seen.contains(es[i as int].name));
                    }
                    let c = Candidate {
                        name: vstd::slice::slice_to_vec(entry.name.as_slice()),
                        version: vstd::slice::slice_to_vec(v.as_slice()),
                    };
                    let ghost prev_out = out.deep_view();
                    let ghost prev_vec = out@;
                    let ghost prev_seen = seen;
                    out.push(c);
                    proof {
                        assert(out.deep_view() =~= prev_out + seq![
                            CandidateView { name: es[i as int].name, version: v@ },
                        ]);
                        assert(spec_candidates(es) == out.deep_view() + candidates_from(
                            es.skip(i + 1),
                            seen.insert(es[i as int].name),
                        ));
                    }
                    proof {
                        seen = seen.insert(es[i as int].name);
                        assert(out@ == prev_vec.push(c));
                        assert forall|nm: Seq<u8>| #[trigger]
                            seen.contains(nm) implies exists|k: int|
                            0 <= k < out@.len() && out@[k].name@ == nm by {
                            if nm == es[i as int].name {
                                assert(out@[out@.len() - 1].name@ == nm);
                            } else {
                                assert(prev_seen.contains(nm));
                                let k = choose|k: int|
                                    0 <= k < prev_vec.len() && prev_vec[k].name@ == nm;
                                assert(out@[k] == prev_vec[k]);
                                assert(out@[k].name@ == nm);
                            }
                        }
                        assert forall|nm: Seq<u8>|
                            (exists|k: int|
                                0 <= k < out@.len() && out@[k].name@ == nm) implies #[trigger]
                            seen.contains(nm) by {
                            let k = choose|k: int| 0 <= k < out@.len() && out@[k].name@ == nm;
                            if k < out@.len() - 1 {
                                assert(prev_vec[k].name@ == nm);
                                assert(prev_seen.contains(nm));
                            }
                        }
                    }
                } else {
                    proof {
                        assert(seen.contains(es[i as int].name));
                    }
                }
            },
            DepSpec::Table(None) => {
                proof {
                    assert(entry_version(es[i as int]) is None);
                }
            },
            DepSpec::Bare(_) => {
                proof {
                    assert(entry_version(es[i as int]) is None);
                }
            },
            DepSpec::Inherited => {
                proof {
                    assert(entry_version(es[i as int]) is None);
                }
            },
        }
        i = i + 1;
    }
    proof {
        assert(es.skip(i as int) =~= Seq::<DepEntryView>::empty());
        assert(out.deep_view() + candidates_from(es.skip(i as int), seen) =~= out.deep_view());
    }
    out
}

/// Reads the benchmark candidates out of manifest bytes: the detailed,
/// version-pinned dependencies, in the order the parsed table yields them
/// (sorted by name), deduplicated.  Fails exactly when the bytes do not
/// parse as a manifest.
pub fn read_candidates(bytes: &[u8]) -> (r: Result<Vec<Candidate>, ManifestError>)
    ensures
        match r {
            Ok(cs) => {
                &&& manifest_dependencies(bytes@) matches Some(es)
                &&& cs.deep_view() == spec_candidates(es)
            },
            Err(e) => {
                &&& manifest_dependencies(bytes@) is None
                &&& e == ManifestError::Unparseable
            },
        },
{
    match parse_manifest(bytes) {
        Err(e) => Err(e),
        Ok(entries) => Ok(candidates_of(&entries)),
    }
}

/// Counts the entries of a dependency table that pin a version.
pub open spec fn count_versioned(es: Seq<DepEntryView>) -> int
    decreases es.len(),
{
    if es.len() == 0 {
        0
    } else {
        (if is_versioned(es.first()) {
            1int
        } else {
            0int
        }) + count_versioned(es.drop_first())
    }
}

proof fn lemma_candidates_from_count(es: Seq<DepEntryView>, seen: Set<Seq<u8>>)
    requires
        forall|i: int, j: int| 0 <= i < j < es.len() ==> es[i].name != es[j].name,
        forall|i: int| 0 <= i < es.len() ==> !seen.contains(#[trigger] es[i].name),
    ensures
        candidates_from(es, seen).len() == count_versioned(es),
    decreases es.len(),
{
    if es.len() > 0 {
        let e = es.first();
        let rest = es.drop_first();
        assert(forall|i: int| 0 <= i < rest.len() ==> rest[i] == es[i + 1]);
        match entry_version(e) {
            Some(_) => {
                assert(!seen.contains(e.name));
                let seen2 = seen.insert(e.name);
                assert forall|i: int| 0 <= i < rest.len() implies !seen2.contains(
                    #[trigger] rest[i].name,
                ) by {
                    assert(rest[i] == es[i + 1]);
                    assert(es[i + 1].name != es[0].name);
                }
                lemma_candidates_from_count(rest, seen2);
            },
            None => {
                lemma_candidates_from_count(rest, seen);
            },
        }
    }
}

/// For a dependency table with pairwise-distinct names (as every parsed
/// table has), the candidate list holds exactly one candidate per detailed,
/// version-pinned entry; path- or source-control-only and bare entries
/// contribute nothing.
pub proof fn lemma_candidate_count(es: Seq<DepEntryView>)
    requires
        forall|i: int, j: int| 0 <= i < j < es.len() ==> es[i].name != es[j].name,
    ensures
        spec_candidates(es).len() == count_versioned(es),
{
    lemma_candidates_from_count(es, Set::empty());
}

} // verus!
