//! Scaffolded projects: the files of a minimal throwaway package.
//!
//! Each benchmark job builds the candidate inside an isolated project that
//! declares exactly one dependency: the candidate itself, pinned to its exact
//! version, with default features toggled per the job's feature set.  This
//! module computes the contents of the two files such a project consists of;
//! creating the unique temporary directory and writing the files is the
//! caller's (unverified) side of the bargain, as is removing the directory on
//! every exit path of the job.

use vstd::prelude::*;
use crate::config::Features;
use crate::text::append_bytes;

verus! {

/// `[package]` header through the opening of the scaffold's package name.
pub open spec fn lit_package_open() -> Seq<u8> {
    seq![
        '[' as u8,
        'p' as u8,
        'a' as u8,
        'c' as u8,
        'k' as u8,
        'a' as u8,
        'g' as u8,
        'e' as u8,
        ']' as u8,
        '\n' as u8,
        'n' as u8,
        'a' as u8,
        'm' as u8,
        'e' as u8,
        ' ' as u8,
        '=' as u8,
        ' ' as u8,
        '"' as u8,
        'm' as u8,
        'a' as u8,
        't' as u8,
        'h' as u8,
        'b' as u8,
        'e' as u8,
        'n' as u8,
        'c' as u8,
        'h' as u8,
        '-' as u8,
    ]
}

/// Close of the package name through the opening of the dependency table.
pub open spec fn lit_package_close() -> Seq<u8> {
    seq![
        '-' as u8,
        'b' as u8,
        'u' as u8,
        'i' as u8,
        'l' as u8,
        'd' as u8,
        't' as u8,
        'i' as u8,
        'm' as u8,
        'e' as u8,
        '"' as u8,
        '\n' as u8,
        'v' as u8,
        'e' as u8,
        'r' as u8,
        's' as u8,
        'i' as u8,
        'o' as u8,
        'n' as u8,
        ' ' as u8,
        '=' as u8,
        ' ' as u8,
        '"' as u8,
        '0' as u8,
        '.' as u8,
        '1' as u8,
        '.' as u8,
        '0' as u8,
        '"' as u8,
        '\n' as u8,
        'e' as u8,
        'd' as u8,
        'i' as u8,
        't' as u8,
        'i' as u8,
        'o' as u8,
        'n' as u8,
        ' ' as u8,
        '=' as u8,
        ' ' as u8,
        '"' as u8,
        '2' as u8,
        '0' as u8,
        '1' as u8,
        '8' as u8,
        '"' as u8,
        '\n' as u8,
        '[' as u8,
        'd' as u8,
        'e' as u8,
        'p' as u8,
        'e' as u8,
        'n' as u8,
        'd' as u8,
        'e' as u8,
        'n' as u8,
        'c' as u8,
        'i' as u8,
        'e' as u8,
        's' as u8,
        '.' as u8,
    ]
}

/// Close of the dependency table name through the version key.
pub open spec fn lit_dep_close() -> Seq<u8> {
    seq![
        ']' as u8,
        '\n' as u8,
        'v' as u8,
        'e' as u8,
        'r' as u8,
        's' as u8,
        'i' as u8,
        'o' as u8,
        'n' as u8,
        ' ' as u8,
        '=' as u8,
        ' ' as u8,
        '"' as u8,
    ]
}

/// Close of the version value.
pub open spec fn lit_ver_close() -> Seq<u8> {
    seq!['"' as u8, '\n' as u8]
}

/// The line that turns default features off.
pub open spec fn lit_no_defaults_line() -> Seq<u8> {
    seq![
        'd' as u8,
        'e' as u8,
        'f' as u8,
        'a' as u8,
        'u' as u8,
        'l' as u8,
        't' as u8,
        '-' as u8,
        'f' as u8,
        'e' as u8,
        'a' as u8,
        't' as u8,
        'u' as u8,
        'r' as u8,
        'e' as u8,
        's' as u8,
        ' ' as u8,
        '=' as u8,
        ' ' as u8,
        'f' as u8,
        'a' as u8,
        'l' as u8,
        's' as u8,
        'e' as u8,
        '\n' as u8,
    ]
}

/// The scaffold's empty source file: a single newline.
pub open spec fn source_bytes() -> Seq<u8> {
    seq!['\n' as u8]
}

/// The package descriptor of the scaffold that builds `name` at `version`
/// under `features`.  It declares exactly that one dependency, pinned to
/// that exact version, and disables default features exactly when the
/// feature set asks for it.
pub open spec fn descriptor_bytes(name: Seq<u8>, version: Seq<u8>, features: Features) -> Seq<u8> {
    lit_package_open() + name + lit_package_close() + name + lit_dep_close() + version
        + lit_ver_close() + (if features is NoDefaults {
        lit_no_defaults_line()
    } else {
        Seq::<u8>::empty()
    })
}

/// The files of one scaffolded project: exactly one package descriptor
/// (written as `Cargo.toml`) and one source file (written as `src/lib.rs`).
#[derive(Debug)]
pub struct ScaffoldPlan {
    pub descriptor: Vec<u8>,
    pub source: Vec<u8>,
}

/// Computes the files of the scaffold that builds `name` at `version` under
/// `features`.
pub fn scaffold_files(name: &[u8], version: &[u8], features: Features) -> (p: ScaffoldPlan)
    ensures
        p.descriptor@ == descriptor_bytes(name@, version@, features),
        p.source@ == source_bytes(),
{
    let lit_open: [u8; 28] = [
        '[' as u8,
        'p' as u8,
        'a' as u8,
        'c' as u8,
        'k' as u8,
        'a' as u8,
        'g' as u8,
        'e' as u8,
        ']' as u8,
        '\n' as u8,
        'n' as u8,
        'a' as u8,
        'm' as u8,
        'e' as u8,
        ' ' as u8,
        '=' as u8,
        ' ' as u8,
        '"' as u8,
        'm' as u8,
        'a' as u8,
        't' as u8,
        'h' as u8,
        'b' as u8,
        'e' as u8,
        'n' as u8,
        'c' as u8,
        'h' as u8,
        '-' as u8,
    ];
    let lit_close: [u8; 61] = [
        '-' as u8,
        'b' as u8,
        'u' as u8,
        'i' as u8,
        'l' as u8,
        'd' as u8,
        't' as u8,
        'i' as u8,
        'm' as u8,
        'e' as u8,
        '"' as u8,
        '\n' as u8,
        'v' as u8,
        'e' as u8,
        'r' as u8,
        's' as u8,
        'i' as u8,
        'o' as u8,
        'n' as u8,
        ' ' as u8,
        '=' as u8,
        ' ' as u8,
        '"' as u8,
        '0' as u8,
        '.' as u8,
        '1' as u8,
        '.' as u8,
        '0' as u8,
        '"' as u8,
        '\n' as u8,
        'e' as u8,
        'd' as u8,
        'i' as u8,
        't' as u8,
        'i' as u8,
        'o' as u8,
        'n' as u8,
        ' ' as u8,
        '=' as u8,
        ' ' as u8,
        '"' as u8,
        '2' as u8,
        '0' as u8,
        '1' as u8,
        '8' as u8,
        '"' as u8,
        '\n' as u8,
        '[' as u8,
        'd' as u8,
        'e' as u8,
        'p' as u8,
        'e' as u8,
        'n' as u8,
        'd' as u8,
        'e' as u8,
        'n' as u8,
        'c' as u8,
        'i' as u8,
        'e' as u8,
        's' as u8,
        '.' as u8,
    ];
    let lit_dep: [u8; 13] = [
        ']' as u8,
        '\n' as u8,
        'v' as u8,
        'e' as u8,
        'r' as u8,
        's' as u8,
        'i' as u8,
        'o' as u8,
        'n' as u8,
        ' ' as u8,
        '=' as u8,
        ' ' as u8,
        '"' as u8,
    ];
    let lit_ver: [u8; 2] = ['"' as u8, '\n' as u8];
    proof {
        assert(lit_open@ =~= lit_package_open());
        assert(lit_close@ =~= lit_package_close());
        assert(lit_dep@ =~= lit_dep_close());
        assert(lit_ver@ =~= lit_ver_close());
    }
    let mut descriptor: Vec<u8> = Vec::new();
    append_bytes(&mut descriptor, lit_open.as_slice());
    append_bytes(&mut descriptor, name);
    append_bytes(&mut descriptor, lit_close.as_slice());
    append_bytes(&mut descriptor, name);
    append_bytes(&mut descriptor, lit_dep.as_slice());
    append_bytes(&mut descriptor, version);
    append_bytes(&mut descriptor, lit_ver.as_slice());
    match features {
        Features::Defaults => {},
        Features::NoDefaults => {
            let lit_nd: [u8; 25] = [
                'd' as u8,
                'e' as u8,
                'f' as u8,
                'a' as u8,
                'u' as u8,
                'l' as u8,
                't' as u8,
                '-' as u8,
                'f' as u8,
                'e' as u8,
                'a' as u8,
                't' as u8,
                'u' as u8,
                'r' as u8,
                'e' as u8,
                's' as u8,
                ' ' as u8,
                '=' as u8,
                ' ' as u8,
                'f' as u8,
                'a' as u8,
                'l' as u8,
                's' as u8,
                'e' as u8,
                '\n' as u8,
            ];
            proof {
                assert(lit_nd@ =~= lit_no_defaults_line());
            }
            append_bytes(&mut descriptor, lit_nd.as_slice());
        },
    }
    let mut source: Vec<u8> = Vec::new();
    source.push('\n' as u8);
    proof {
        assert(descriptor@ =~= descriptor_bytes(name@, version@, features));
        assert(source@ =~= source_bytes());
    }
    ScaffoldPlan { descriptor, source }
}

/// Scaffolding the same candidate under the same feature set twice yields
/// structurally identical files: the contents depend on nothing but the
/// candidate's name and version and the feature set.
pub proof fn lemma_scaffold_deterministic(
    once: ScaffoldPlan,
    again: ScaffoldPlan,
    name: Seq<u8>,
    version: Seq<u8>,
    features: Features,
)
    requires
        once.descriptor@ == descriptor_bytes(name, version, features),
        once.source@ == source_bytes(),
        again.descriptor@ == descriptor_bytes(name, version, features),
        again.source@ == source_bytes(),
    ensures
        once.descriptor@ == again.descriptor@,
        once.source@ == again.source@,
{
}

} // verus!
