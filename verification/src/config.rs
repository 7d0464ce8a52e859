//! Build configuration axes: the optimization profile and the feature set.
//!
//! Together with a candidate these span the benchmark matrix.  Each axis
//! knows its command-line spellings and how it shows up in a scaffolded
//! project or a build invocation.

use vstd::prelude::*;
use crate::text::str_eq;

verus! {

/// Optimization profile under which a candidate is compiled.
#[derive(Clone, Copy, PartialEq, Eq, Structural, Debug)]
pub enum Profile {
    Dev,
    Release,
}

impl Default for Profile {
    /// The profile benchmarked when none is requested.
    fn default() -> (r: Self)
        ensures
            r == Profile::Release,
    {
        Profile::Release
    }
}

impl Profile {
    /// The profile a command-line spelling denotes, if any.
    pub open spec fn spec_parse(s: Seq<char>) -> Option<Profile> {
        if s == "dev"@ {
            Some(Profile::Dev)
        } else if s == "release"@ {
            Some(Profile::Release)
        } else {
            None
        }
    }

    /// Parses a command-line profile spelling.
    pub fn try_from(value: &str) -> (r: Option<Profile>)
        ensures
            r == Profile::spec_parse(value@),
    {
        if str_eq(value, "dev") {
            Some(Profile::Dev)
        } else if str_eq(value, "release") {
            Some(Profile::Release)
        } else {
            None
        }
    }

    /// The accepted command-line spellings, in declaration order.
    pub fn possible_values() -> (r: &'static [&'static str])
        ensures
            r@.len() == 2,
            r@[0]@ == "dev"@,
            r@[1]@ == "release"@,
    {
        &["dev", "release"]
    }

    /// The extra build flag the profile requires, if any.
    pub fn get_flags(&self) -> (r: Option<&str>)
        ensures
            match r {
                Some(f) => self is Release && f@ == "--release"@,
                None => self is Dev,
            },
    {
        match self {
            Profile::Dev => None,
            Profile::Release => Some("--release"),
        }
    }

    /// The profile's display spelling, as characters.
    pub open spec fn spec_name(self) -> Seq<char> {
        match self {
            Profile::Dev => "dev"@,
            Profile::Release => "release"@,
        }
    }

    /// The profile's display spelling.
    pub fn as_str(&self) -> (r: &str)
        ensures
            r@ == self.spec_name(),
    {
        match self {
            Profile::Dev => "dev",
            Profile::Release => "release",
        }
    }

    /// The profile's display spelling, as bytes.
    pub open spec fn spec_name_bytes(self) -> Seq<u8> {
        match self {
            Profile::Dev => seq!['d' as u8, 'e' as u8, 'v' as u8],
            Profile::Release => seq![
                'r' as u8,
                'e' as u8,
                'l' as u8,
                'e' as u8,
                'a' as u8,
                's' as u8,
                'e' as u8,
            ],
        }
    }

    /// The profile's display spelling, as bytes.
    pub fn name_bytes(&self) -> (v: Vec<u8>)
        ensures
            v@ == self.spec_name_bytes(),
    {
        match self {
            Profile::Dev => {
                let a: [u8; 3] = ['d' as u8, 'e' as u8, 'v' as u8];
                let v = vstd::slice::slice_to_vec(a.as_slice());
                proof {
                    assert(v@ =~= self.spec_name_bytes());
                }
                v
            },
            Profile::Release => {
                let a: [u8; 7] = [
                    'r' as u8,
                    'e' as u8,
                    'l' as u8,
                    'e' as u8,
                    'a' as u8,
                    's' as u8,
                    'e' as u8,
                ];
                let v = vstd::slice::slice_to_vec(a.as_slice());
                proof {
                    assert(v@ =~= self.spec_name_bytes());
                }
                v
            },
        }
    }
}

/// Feature-flag configuration under which a candidate is compiled.
#[derive(Clone, Copy, PartialEq, Eq, Structural, Debug)]
pub enum Features {
    Defaults,
    NoDefaults,
}

impl Default for Features {
    /// The feature set benchmarked when none is requested.
    fn default() -> (r: Self)
        ensures
            r == Features::Defaults,
    {
        Features::Defaults
    }
}

impl Features {
    /// The feature set a command-line spelling denotes, if any.
    pub open spec fn spec_parse(s: Seq<char>) -> Option<Features> {
        if s == "defaults"@ {
            Some(Features::Defaults)
        } else if s == "no-defaults"@ {
            Some(Features::NoDefaults)
        } else {
            None
        }
    }

    /// Parses a command-line feature-set spelling.
    pub fn try_from(value: &str) -> (r: Option<Features>)
        ensures
            r == Features::spec_parse(value@),
    {
        if str_eq(value, "defaults") {
            Some(Features::Defaults)
        } else if str_eq(value, "no-defaults") {
            Some(Features::NoDefaults)
        } else {
            None
        }
    }

    /// The accepted command-line spellings, in declaration order.
    pub fn possible_values() -> (r: &'static [&'static str])
        ensures
            r@.len() == 2,
            r@[0]@ == "defaults"@,
            r@[1]@ == "no-defaults"@,
    {
        &["defaults", "no-defaults"]
    }

    /// The feature set's display spelling, as characters.
    pub open spec fn spec_name(self) -> Seq<char> {
        match self {
            Features::Defaults => "defaults"@,
            Features::NoDefaults => "no-defaults"@,
        }
    }

    /// The feature set's display spelling.
    pub fn as_str(&self) -> (r: &str)
        ensures
            r@ == self.spec_name(),
    {
        match self {
            Features::Defaults => "defaults",
            Features::NoDefaults => "no-defaults",
        }
    }

    /// The feature set's display spelling, as bytes.
    pub open spec fn spec_name_bytes(self) -> Seq<u8> {
        match self {
            Features::Defaults => seq![
                'd' as u8,
                'e' as u8,
                'f' as u8,
                'a' as u8,
                'u' as u8,
                'l' as u8,
                't' as u8,
                's' as u8,
            ],
            Features::NoDefaults => seq![
                'n' as u8,
                'o' as u8,
                '-' as u8,
                'd' as u8,
                'e' as u8,
                'f' as u8,
                'a' as u8,
                'u' as u8,
                'l' as u8,
                't' as u8,
                's' as u8,
            ],
        }
    }

    /// The feature set's display spelling, as bytes.
    pub fn name_bytes(&self) -> (v: Vec<u8>)
        ensures
            v@ == self.spec_name_bytes(),
    {
        match self {
            Features::Defaults => {
                let a: [u8; 8] = [
                    'd' as u8,
                    'e' as u8,
                    'f' as u8,
                    'a' as u8,
                    'u' as u8,
                    'l' as u8,
                    't' as u8,
                    's' as u8,
                ];
                let v = vstd::slice::slice_to_vec(a.as_slice());
                proof {
                    assert(v@ =~= self.spec_name_bytes());
                }
                v
            },
            Features::NoDefaults => {
                let a: [u8; 11] = [
                    'n' as u8,
                    'o' as u8,
                    '-' as u8,
                    'd' as u8,
                    'e' as u8,
                    'f' as u8,
                    'a' as u8,
                    'u' as u8,
                    'l' as u8,
                    't' as u8,
                    's' as u8,
                ];
                let v = vstd::slice::slice_to_vec(a.as_slice());
                proof {
                    assert(v@ =~= self.spec_name_bytes());
                }
                v
            },
        }
    }

    /// The manifest line that turns default features off, owed exactly when
    /// the feature set asks for that.
    pub fn get_toml_value(&self) -> (r: Option<&str>)
        ensures
            match r {
                Some(l) => self is NoDefaults && l@ == "default-features = false"@,
                None => self is Defaults,
            },
    {
        match self {
            Features::Defaults => None,
            Features::NoDefaults => Some("default-features = false"),
        }
    }
}

} // verus!
