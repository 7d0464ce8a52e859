//! Build invocations: the command line of one job and the names of its
//! timing artifact.
//!
//! A job's build is an external subprocess run inside the scaffold directory
//! with the diagnostic channel piped back; spawning it, streaming its
//! diagnostics and copying the artifact are the caller's (unverified) side.
//! This module fixes the decisions: which command and arguments to run for a
//! profile, and where the timing-detail file is found and filed away.  A
//! non-zero exit or a spawn failure is a per-job failure that the caller
//! reports by handing the aggregator a failed outcome.

use vstd::prelude::*;
use crate::config::{Features, Profile};
use crate::text::append_bytes;

verus! {

/// The external build tool.
pub fn build_command() -> (r: &'static str)
    ensures
        r@ == "cargo"@,
{
    "cargo"
}

/// The arguments of one build invocation: the nightly toolchain, a build
/// with machine-oriented timing diagnostics, and the profile's own flag.
pub fn build_args(profile: Profile) -> (args: Vec<&'static str>)
    ensures
        args@.len() == (if profile is Release {
            5int
        } else {
            4int
        }),
        args@[0]@ == "+nightly"@,
        args@[1]@ == "build"@,
        args@[2]@ == "-Z"@,
        args@[3]@ == "timings=html,info"@,
        profile is Release ==> args@[4]@ == "--release"@,
{
    let mut args: Vec<&'static str> = Vec::new();
    args.push("+nightly");
    args.push("build");
    args.push("-Z");
    args.push("timings=html,info");
    match profile {
        Profile::Dev => {},
        Profile::Release => {
            args.push("--release");
        },
    }
    args
}

/// The timing-detail file the build leaves inside the scaffold directory.
pub open spec fn artifact_source_bytes() -> Seq<u8> {
    seq![
        'c' as u8,
        'a' as u8,
        'r' as u8,
        'g' as u8,
        'o' as u8,
        '-' as u8,
        't' as u8,
        'i' as u8,
        'm' as u8,
        'i' as u8,
        'n' as u8,
        'g' as u8,
        '.' as u8,
        'h' as u8,
        't' as u8,
        'm' as u8,
        'l' as u8,
    ]
}

/// The name of the timing-detail file inside the scaffold directory.
pub fn artifact_source_name() -> (v: Vec<u8>)
    ensures
        v@ == artifact_source_bytes(),
{
    let a: [u8; 17] = [
        'c' as u8,
        'a' as u8,
        'r' as u8,
        'g' as u8,
        'o' as u8,
        '-' as u8,
        't' as u8,
        'i' as u8,
        'm' as u8,
        'i' as u8,
        'n' as u8,
        'g' as u8,
        '.' as u8,
        'h' as u8,
        't' as u8,
        'm' as u8,
        'l' as u8,
    ];
    let v = vstd::slice::slice_to_vec(a.as_slice());
    proof {
        assert(v@ =~= artifact_source_bytes());
    }
    v
}

/// The well-known report path a job's artifact is copied to, relative to
/// the invoking working directory:
/// `cargo-timing-<candidate>-<profile>-<features>.html`.
pub open spec fn report_name_bytes(name: Seq<u8>, profile: Profile, features: Features) -> Seq<
    u8,
> {
    seq![
        'c' as u8,
        'a' as u8,
        'r' as u8,
        'g' as u8,
        'o' as u8,
        '-' as u8,
        't' as u8,
        'i' as u8,
        'm' as u8,
        'i' as u8,
        'n' as u8,
        'g' as u8,
        '-' as u8,
    ] + name + seq!['-' as u8] + profile.spec_name_bytes() + seq!['-' as u8]
        + features.spec_name_bytes() + seq!['.' as u8, 'h' as u8, 't' as u8, 'm' as u8, 'l' as u8]
}

/// The report name a job's timing artifact is filed under.
pub fn report_artifact_name(name: &[u8], profile: Profile, features: Features) -> (v: Vec<u8>)
    ensures
        v@ == report_name_bytes(name@, profile, features),
{
    let prefix: [u8; 13] = [
        'c' as u8,
        'a' as u8,
        'r' as u8,
        'g' as u8,
        'o' as u8,
        '-' as u8,
        't' as u8,
        'i' as u8,
        'm' as u8,
        'i' as u8,
        'n' as u8,
        'g' as u8,
        '-' as u8,
    ];
    let suffix: [u8; 5] = ['.' as u8, 'h' as u8, 't' as u8, 'm' as u8, 'l' as u8];
    let mut v: Vec<u8> = Vec::new();
    append_bytes(&mut v, prefix.as_slice());
    append_bytes(&mut v, name);
    v.push('-' as u8);
    let prof = profile.name_bytes();
    append_bytes(&mut v, prof.as_slice());
    v.push('-' as u8);
    let feat = features.name_bytes();
    append_bytes(&mut v, feat.as_slice());
    append_bytes(&mut v, suffix.as_slice());
    proof {
        assert(v@ =~= report_name_bytes(name@, profile, features));
    }
    v
}

} // verus!
