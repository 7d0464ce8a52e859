//! The benchmark matrix: planning its jobs and aggregating their outcomes.
//!
//! The matrix is the Cartesian product of candidates, profiles and feature
//! sets, iterated strictly in that nesting order, one job at a time.  An
//! optional allow-list restricts which candidates take part (an empty list
//! admits all).  Each job either yields a timing record or fails; failures
//! are tolerated, and the aggregate keeps the successful records in matrix
//! order.  The caller drives the jobs (spawning builds is its unverified
//! side) and hands every outcome back, in order.

use vstd::prelude::*;
use crate::config::{Features, Profile};
use crate::manifest::{Candidate, CandidateView};
use crate::text::slices_eq;
use crate::timing::{TimingRecord, TimingRecordView};

verus! {

/// One unit of matrix work: build one candidate under one profile and one
/// feature set.
#[derive(Debug)]
pub struct BuildJob {
    pub candidate: Candidate,
    pub profile: Profile,
    pub features: Features,
}

/// The mathematical image of a build job.
pub struct BuildJobView {
    pub candidate: CandidateView,
    pub profile: Profile,
    pub features: Features,
}

impl View for BuildJob {
    type V = BuildJobView;

    open spec fn view(&self) -> BuildJobView {
        BuildJobView {
            candidate: self.candidate@,
            profile: self.profile,
            features: self.features,
        }
    }
}

impl DeepView for BuildJob {
    type V = BuildJobView;

    open spec fn deep_view(&self) -> BuildJobView {
        self.view()
    }
}

/// An empty allow-list admits every candidate; a nonempty one only the
/// names it holds.
pub open spec fn allow_admits(allowed: Seq<Seq<u8>>, name: Seq<u8>) -> bool {
    allowed.len() == 0 || allowed.contains(name)
}

/// One candidate's jobs under one profile: one per feature set, in order.
pub open spec fn jobs_for_features(c: CandidateView, p: Profile, fs: Seq<Features>) -> Seq<
    BuildJobView,
>
    decreases fs.len(),
{
    if fs.len() == 0 {
        Seq::empty()
    } else {
        seq![BuildJobView { candidate: c, profile: p, features: fs.first() }] + jobs_for_features(
            c,
            p,
            fs.drop_first(),
        )
    }
}

/// One candidate's jobs: profiles outer, feature sets inner.
pub open spec fn jobs_for_profiles(
    c: CandidateView,
    ps: Seq<Profile>,
    fs: Seq<Features>,
) -> Seq<BuildJobView>
    decreases ps.len(),
{
    if ps.len() == 0 {
        Seq::empty()
    } else {
        jobs_for_features(c, ps.first(), fs) + jobs_for_profiles(c, ps.drop_first(), fs)
    }
}

/// The whole matrix in iteration order: candidates outer, then profiles,
/// then feature sets; candidates the allow-list does not admit contribute
/// no jobs.
pub open spec fn spec_plan(
    cs: Seq<CandidateView>,
    ps: Seq<Profile>,
    fs: Seq<Features>,
    allowed: Seq<Seq<u8>>,
) -> Seq<BuildJobView>
    decreases cs.len(),
{
    if cs.len() == 0 {
        Seq::empty()
    } else {
        (if allow_admits(allowed, cs.first().name) {
            jobs_for_profiles(cs.first(), ps, fs)
        } else {
            Seq::empty()
        }) + spec_plan(cs.drop_first(), ps, fs, allowed)
    }
}

/// Counts the candidates the allow-list admits.
pub open spec fn count_admitted(cs: Seq<CandidateView>, allowed: Seq<Seq<u8>>) -> int
    decreases cs.len(),
{
    if cs.len() == 0 {
        0
    } else {
        (if allow_admits(allowed, cs.first().name) {
            1int
        } else {
            0int
        }) + count_admitted(cs.drop_first(), allowed)
    }
}

proof fn lemma_jobs_for_features_len(c: CandidateView, p: Profile, fs: Seq<Features>)
    ensures
        jobs_for_features(c, p, fs).len() == fs.len(),
    decreases fs.len(),
{
    if fs.len() > 0 {
        lemma_jobs_for_features_len(c, p, fs.drop_first());
    }
}

proof fn lemma_jobs_for_profiles_len(c: CandidateView, ps: Seq<Profile>, fs: Seq<Features>)
    ensures
        jobs_for_profiles(c, ps, fs).len() == ps.len() * fs.len(),
    decreases ps.len(),
{
    if ps.len() > 0 {
        lemma_jobs_for_features_len(c, ps.first(), fs);
        lemma_jobs_for_profiles_len(c, ps.drop_first(), fs);
        assert(fs.len() + (ps.len() - 1) * fs.len() == ps.len() * fs.len()) by (nonlinear_arith);
    }
}

/// The matrix holds exactly one job per admitted candidate, profile and
/// feature set.
pub proof fn lemma_plan_len(
    cs: Seq<CandidateView>,
    ps: Seq<Profile>,
    fs: Seq<Features>,
    allowed: Seq<Seq<u8>>,
)
    ensures
        spec_plan(cs, ps, fs, allowed).len() == count_admitted(cs, allowed) * (ps.len()
            * fs.len()),
    decreases cs.len(),
{
    if cs.len() > 0 {
        lemma_plan_len(cs.drop_first(), ps, fs, allowed);
        if allow_admits(allowed, cs.first().name) {
            lemma_jobs_for_profiles_len(cs.first(), ps, fs);
            assert(ps.len() * fs.len() + (count_admitted(cs, allowed) - 1) * (ps.len() * fs.len())
                == count_admitted(cs, allowed) * (ps.len() * fs.len())) by (nonlinear_arith);
        }
    }
}

/// Whether the allow-list holds this name.
fn allowed_contains(allowed: &Vec<Vec<u8>>, name: &[u8]) -> (r: bool)
    ensures
        r <==> allowed.deep_view().contains(name@),
{
    let mut k: usize = 0;
    while k < allowed.len()
        invariant
            0 <= k <= allowed@.len(),
            forall|j: int| 0 <= j < k ==> allowed.deep_view()[j] != name@,
        decreases allowed@.len() - k,
    {
        proof {
            assert(allowed.deep_view()[k as int] == allowed@[k as int]@);
        }
        if slices_eq(allowed[k].as_slice(), name) {
            return true;
        }
        k = k + 1;
    }
    false
}

/// Lays the full matrix out in iteration order.
pub fn plan_jobs(
    candidates: &Vec<Candidate>,
    profiles: &Vec<Profile>,
    features: &Vec<Features>,
    allowed: &Vec<Vec<u8>>,
) -> (jobs: Vec<BuildJob>)
    ensures
        jobs.deep_view() == spec_plan(
            candidates.deep_view(),
            profiles@,
            features@,
            allowed.deep_view(),
        ),
        jobs@.len() == count_admitted(candidates.deep_view(), allowed.deep_view()) * (
        profiles@.len() * features@.len()),
{
    proof {
        lemma_plan_len(candidates.deep_view(), profiles@, features@, allowed.deep_view());
    }
    let ghost cs = candidates.deep_view();
    let ghost ps = profiles@;
    let ghost fs = features@;
    let ghost al = allowed.deep_view();
    let mut jobs: Vec<BuildJob> = Vec::new();
    let mut i: usize = 0;
    proof {
        assert(cs.skip(0) =~= cs);
    }
    while i < candidates.len()
        invariant
            0 <= i <= cs.len(),
            cs == candidates.deep_view(),
            ps == profiles@,
            fs == features@,
            al == allowed.deep_view(),
            cs.len() == candidates@.len(),
            spec_plan(cs, ps, fs, al) == jobs.deep_view() + spec_plan(cs.skip(i as int), ps, fs, al),
        decreases cs.len() - i,
    {
        proof {
            assert(cs.skip(i as int).first() == cs[i as int]);
            assert(cs.skip(i as int).drop_first() =~= cs.skip(i + 1));
            assert(cs[i as int] == candidates@[i as int]@);
        }
        let cand = &candidates[i];
        let admitted = if allowed.len() == 0 {
            true
        } else {
            allowed_contains(allowed, cand.name.as_slice())
        };
        if admitted {
            let ghost before_cand = jobs.deep_view();
            let mut j: usize = 0;
            proof {
                assert(ps.skip(0) =~= ps);
            }
            while j < profiles.len()
                invariant
                    0 <= j <= ps.len(),
                    ps == profiles@,
                    fs == features@,
                    ps.len() == profiles@.len(),
                    cand@ == cs[i as int],
                    0 <= i < cs.len(),
                    jobs.deep_view() + jobs_for_profiles(cs[i as int], ps.skip(j as int), fs)
                        == before_cand + jobs_for_profiles(cs[i as int], ps, fs),
                decreases ps.len() - j,
            {
                proof {
                    assert(ps.skip(j as int).first() == ps[j as int]);
                    assert(ps.skip(j as int).drop_first() =~= ps.skip(j + 1));
                }
                let prof = profiles[j];
                let ghost before_prof = jobs.deep_view();
                let mut k: usize = 0;
                proof {
                    assert(fs.skip(0) =~= fs);
                }
                while k < features.len()
                    invariant
                        0 <= k <= fs.len(),
                        fs == features@,
                        fs.len() == features@.len(),
                        cand@ == cs[i as int],
                        0 <= i < cs.len(),
                        prof == ps[j as int],
                        0 <= j < ps.len(),
                        jobs.deep_view() + jobs_for_features(
                            cs[i as int],
                            ps[j as int],
                            fs.skip(k as int),
                        ) == before_prof + jobs_for_features(cs[i as int], ps[j as int], fs),
                    decreases fs.len() - k,
                {
                    proof {
                        assert(fs.skip(k as int).first() == fs[k as int]);
                        assert(fs.skip(k as int).drop_first() =~= fs.skip(k + 1));
                    }
                    let ghost before = jobs.deep_view();
                    jobs.push(
                        BuildJob { candidate: cand.duplicate(), profile: prof, features: features[k] },
                    );
                    proof {
                        assert(jobs.deep_view() =~= before + seq![
                            BuildJobView {
                                candidate: cs[i as int],
                                profile: ps[j as int],
                                features: fs[k as int],
                            },
                        ]);
                    }
                    k = k + 1;
                }
                proof {
                    assert(fs.skip(fs.len() as int) =~= Seq::<Features>::empty());
                    assert(jobs.deep_view() + jobs_for_profiles(
                        cs[i as int],
                        ps.skip(j + 1),
                        fs,
                    ) =~= before_cand + jobs_for_profiles(cs[i as int], ps, fs));
                }
                j = j + 1;
            }
            proof {
                assert(ps.skip(ps.len() as int) =~= Seq::<Profile>::empty());
                assert(jobs_for_profiles(cs[i as int], ps.skip(ps.len() as int), fs)
                    =~= Seq::<BuildJobView>::empty());
                assert(jobs.deep_view() =~= before_cand + jobs_for_profiles(cs[i as int], ps, fs));
                assert(spec_plan(cs, ps, fs, al) == jobs.deep_view() + spec_plan(
                    cs.skip(i + 1),
                    ps,
                    fs,
                    al,
                ));
            }
        } else {
            proof {
                assert(!allow_admits(al, cs[i as int].name));
                assert(spec_plan(cs.skip(i as int), ps, fs, al) == spec_plan(
                    cs.skip(i + 1),
                    ps,
                    fs,
                    al,
                ));
            }
        }
        i = i + 1;
    }
    proof {
        assert(cs.skip(i as int) =~= Seq::<CandidateView>::empty());
        assert(jobs.deep_view() + spec_plan(cs.skip(i as int), ps, fs, al) =~= jobs.deep_view());
    }
    jobs
}

/// The records of the successful outcomes, in outcome order.
pub open spec fn spec_successes(os: Seq<Option<TimingRecordView>>) -> Seq<TimingRecordView>
    decreases os.len(),
{
    if os.len() == 0 {
        Seq::empty()
    } else {
        (match os.first() {
            Some(r) => seq![r],
            None => Seq::empty(),
        }) + spec_successes(os.drop_first())
    }
}

/// Counts the successful outcomes.
pub open spec fn count_successes(os: Seq<Option<TimingRecordView>>) -> int
    decreases os.len(),
{
    if os.len() == 0 {
        0
    } else {
        (if os.first() is Some {
            1int
        } else {
            0int
        }) + count_successes(os.drop_first())
    }
}

/// The aggregate holds exactly one record per successful job and never more
/// records than jobs were attempted.
pub proof fn lemma_success_count(os: Seq<Option<TimingRecordView>>)
    ensures
        spec_successes(os).len() == count_successes(os),
        count_successes(os) <= os.len(),
    decreases os.len(),
{
    if os.len() > 0 {
        lemma_success_count(os.drop_first());
    }
}

/// Keeps the records of the successful outcomes, in the same relative order
/// as their jobs were attempted; failed jobs contribute nothing.
pub fn collect_records(outcomes: &Vec<Option<TimingRecord>>) -> (r: Vec<TimingRecord>)
    ensures
        r.deep_view() == spec_successes(outcomes.deep_view()),
        r@.len() == count_successes(outcomes.deep_view()),
        r@.len() <= outcomes@.len(),
{
    proof {
        lemma_success_count(outcomes.deep_view());
    }
    let ghost os = outcomes.deep_view();
    let mut r: Vec<TimingRecord> = Vec::new();
    let mut i: usize = 0;
    proof {
        assert(os.skip(0) =~= os);
    }
    while i < outcomes.len()
        invariant
            0 <= i <= os.len(),
            os == outcomes.deep_view(),
            os.len() == outcomes@.len(),
            spec_successes(os) == r.deep_view() + spec_successes(os.skip(i as int)),
        decreases os.len() - i,
    {
        proof {
            assert(os.skip(i as int).first() == os[i as int]);
            assert(os.skip(i as int).drop_first() =~= os.skip(i + 1));
            assert(os[i as int] == outcomes@[i as int].deep_view());
        }
        match &outcomes[i] {
            Some(rec) => {
                let ghost before = r.deep_view();
                r.push(rec.duplicate());
                proof {
                    assert(r.deep_view() =~= before + seq![rec@]);
                    assert(os[i as int] == Some(rec@));
                }
            },
            None => {
                proof {
                    assert(os[i as int] is None);
                }
            },
        }
        i = i + 1;
    }
    proof {
        assert(os.skip(i as int) =~= Seq::<Option<TimingRecordView>>::empty());
        assert(r.deep_view() + spec_successes(os.skip(i as int)) =~= r.deep_view());
    }
    r
}

} // verus!
