//! Typed configuration: the closed sets of values that select a toolchain
//! and a build, each with one canonical string.

use vstd::prelude::*;
use vstd::string::StringExecFns;
use crate::text::same_text;

verus! {

/// The failure of parsing a configuration value: it lists every string that
/// would have been accepted.
#[derive(Debug)]
pub struct InvalidTypeError(Vec<String>);

/// The text that lists `values`, each followed by a comma and a space.
pub open spec fn listed(values: Seq<Seq<char>>) -> Seq<char>
    decreases values.len(),
{
    if values.len() == 0 {
        Seq::<char>::empty()
    } else {
        listed(values.drop_last()) + values.last() + ", "@
    }
}

impl View for InvalidTypeError {
    type V = Seq<Seq<char>>;

    /// The accepted strings, in the order in which they are listed.
    closed spec fn view(&self) -> Seq<Seq<char>> {
        Seq::new(self.0@.len(), |i: int| self.0@[i]@)
    }
}

impl InvalidTypeError {
    /// The message of an error that lists `values`.
    pub open spec fn spec_message(values: Seq<Seq<char>>) -> Seq<char> {
        "an invalid type was given, expected one of: "@ + listed(values)
    }

    /// An error that lists `values` as the accepted strings.
    pub fn new(values: &[&str]) -> (r: Self)
        ensures
            r@.len() == values@.len(),
            forall|i: int| 0 <= i < values@.len() ==> r@[i] == values@[i]@,
    {
        let mut held: Vec<String> = Vec::new();
        let mut i: usize = 0;
        while i < values.len()
            invariant
                i <= values.len(),
                held@.len() == i,
                forall|j: int| 0 <= j < i ==> held@[j]@ == values@[j]@,
            decreases values.len() - i,
        {
            held.push(values[i].to_owned());
            i += 1;
        }
        InvalidTypeError(held)
    }

    /// The accepted strings, in the order in which they are listed.
    pub fn values(&self) -> (r: &Vec<String>)
        ensures
            r@.len() == self@.len(),
            forall|i: int| 0 <= i < r@.len() ==> r@[i]@ == self@[i],
    {
        &self.0
    }

    /// The message: a fixed opening, then each accepted string followed by a
    /// comma and a space.
    pub fn to_string(&self) -> (r: String)
        ensures
            r@ == Self::spec_message(self@),
    {
        let mut out = "an invalid type was given, expected one of: ".to_owned();
        let mut i: usize = 0;
        assert(self@.take(0) =~= Seq::<Seq<char>>::empty());
        while i < self.0.len()
            invariant
                i <= self.0.len(),
                out@ == Self::spec_message(self@.take(i as int)),
            decreases self.0.len() - i,
        {
            proof {
                let next = self@.take(i + 1);
                assert(next.drop_last() =~= self@.take(i as int));
                assert(next.last() == self.0@[i as int]@);
            }
            out.append(self.0[i].as_str());
            out.append(", ");
            i += 1;
        }
        assert(self@.take(self.0.len() as int) =~= self@);
        out
    }
}

/// The release track of the toolchain.
#[derive(Debug, Clone, Copy, PartialEq, Eq, PartialOrd, Ord, Hash, Structural)]
pub enum RustChannel {
    Stable,
    Beta,
    Nightly,
}

impl Default for RustChannel {
    fn default() -> (r: Self)
        ensures
            r == RustChannel::Nightly,
    {
        RustChannel::Nightly
    }
}

impl RustChannel {
    /// The canonical string of this channel.
    pub open spec fn spec_str(&self) -> Seq<char> {
        match self {
            RustChannel::Stable => "stable"@,
            RustChannel::Beta => "beta"@,
            RustChannel::Nightly => "nightly"@,
        }
    }

    /// The channel whose canonical string is `s`, if there is one.
    pub open spec fn spec_from_str(s: Seq<char>) -> Option<RustChannel> {
        if s == "stable"@ {
            Some(RustChannel::Stable)
        } else if s == "beta"@ {
            Some(RustChannel::Beta)
        } else if s == "nightly"@ {
            Some(RustChannel::Nightly)
        } else {
            None
        }
    }

    /// The canonical strings of all channels.
    pub open spec fn spec_names() -> Seq<Seq<char>> {
        seq!["stable"@, "beta"@, "nightly"@]
    }

    /// The canonical string of this channel.
    pub fn as_str(&self) -> (r: &'static str)
        ensures
            r@ == self.spec_str(),
    {
        match self {
            RustChannel::Stable => "stable",
            RustChannel::Beta => "beta",
            RustChannel::Nightly => "nightly",
        }
    }

    /// The canonical string of this channel, owned.
    pub fn to_string(&self) -> (r: String)
        ensures
            r@ == self.spec_str(),
    {
        self.as_str().to_owned()
    }

    /// Strict parsing: the channel whose canonical string is `s`; for any
    /// other string, an error that lists the canonical strings of all
    /// channels.
    pub fn from_str(s: &str) -> (r: Result<RustChannel, InvalidTypeError>)
        ensures
            match Self::spec_from_str(s@) {
                Some(value) => r == Ok::<RustChannel, InvalidTypeError>(value),
                None => r matches Err(e) && e@ == Self::spec_names(),
            },
    {
        if same_text(s, "stable") {
            Ok(RustChannel::Stable)
        } else if same_text(s, "beta") {
            Ok(RustChannel::Beta)
        } else if same_text(s, "nightly") {
            Ok(RustChannel::Nightly)
        } else {
            let e = InvalidTypeError::new(&["stable", "beta", "nightly"]);
            assert(e@ =~= Self::spec_names());
            Err(e)
        }
    }

    /// Formatting a channel and parsing the result gives the channel back.
    pub proof fn lemma_format_then_parse(value: RustChannel)
        ensures
            Self::spec_from_str(value.spec_str()) == Some(value),
    {
        reveal_strlit("stable");
        reveal_strlit("beta");
        reveal_strlit("nightly");
        assert("stable"@.len() == 6 && "beta"@.len() == 4 && "nightly"@.len() == 7);
    }

    /// Parsing a string that names a channel and formatting the result gives
    /// the identical string back.
    pub proof fn lemma_parse_then_format(s: Seq<char>)
        requires
            Self::spec_from_str(s) is Some,
        ensures
            Self::spec_from_str(s)->0.spec_str() == s,
    {
    }

    /// The error of a failed parse names the canonical string of every
    /// channel.
    pub proof fn lemma_names_every_value(value: RustChannel)
        ensures
            Self::spec_names().contains(value.spec_str()),
    {
        let names = Self::spec_names();
        assert(names[0] == "stable"@ && names[1] == "beta"@ && names[2] == "nightly"@);
    }
}

/// The language edition.
#[derive(Debug, Clone, Copy, PartialEq, Eq, PartialOrd, Ord, Hash, Structural)]
pub enum Edition {
    E2015,
    E2018,
    E2021,
}

impl Default for Edition {
    fn default() -> (r: Self)
        ensures
            r == Edition::E2018,
    {
        Edition::E2018
    }
}

impl Edition {
    /// The canonical string of this edition.
    pub open spec fn spec_str(&self) -> Seq<char> {
        match self {
            Edition::E2015 => "2015"@,
            Edition::E2018 => "2018"@,
            Edition::E2021 => "2021"@,
        }
    }

    /// The edition whose canonical string is `s`, if there is one.
    pub open spec fn spec_from_str(s: Seq<char>) -> Option<Edition> {
        if s == "2015"@ {
            Some(Edition::E2015)
        } else if s == "2018"@ {
            Some(Edition::E2018)
        } else if s == "2021"@ {
            Some(Edition::E2021)
        } else {
            None
        }
    }

    /// The canonical strings of all editions.
    pub open spec fn spec_names() -> Seq<Seq<char>> {
        seq!["2015"@, "2018"@, "2021"@]
    }

    /// The canonical string of this edition.
    pub fn as_str(&self) -> (r: &'static str)
        ensures
            r@ == self.spec_str(),
    {
        match self {
            Edition::E2015 => "2015",
            Edition::E2018 => "2018",
            Edition::E2021 => "2021",
        }
    }

    /// The canonical string of this edition, owned.
    pub fn to_string(&self) -> (r: String)
        ensures
            r@ == self.spec_str(),
    {
        self.as_str().to_owned()
    }

    /// Strict parsing: the edition whose canonical string is `s`; for any
    /// other string, an error that lists the canonical strings of all
    /// editions.
    pub fn from_str(s: &str) -> (r: Result<Edition, InvalidTypeError>)
        ensures
            match Self::spec_from_str(s@) {
                Some(value) => r == Ok::<Edition, InvalidTypeError>(value),
                None => r matches Err(e) && e@ == Self::spec_names(),
            },
    {
        if same_text(s, "2015") {
            Ok(Edition::E2015)
        } else if same_text(s, "2018") {
            Ok(Edition::E2018)
        } else if same_text(s, "2021") {
            Ok(Edition::E2021)
        } else {
            let e = InvalidTypeError::new(&["2015", "2018", "2021"]);
            assert(e@ =~= Self::spec_names());
            Err(e)
        }
    }

    /// Formatting an edition and parsing the result gives it back.
    pub proof fn lemma_format_then_parse(value: Edition)
        ensures
            Self::spec_from_str(value.spec_str()) == Some(value),
    {
        reveal_strlit("2015");
        reveal_strlit("2018");
        reveal_strlit("2021");
        assert("2015"@[2] == '1' && "2015"@[3] == '5' && "2018"@[3] == '8' && "2021"@[2] == '2');
    }

    /// Parsing a string that names an edition and formatting the result gives
    /// the identical string back.
    pub proof fn lemma_parse_then_format(s: Seq<char>)
        requires
            Self::spec_from_str(s) is Some,
        ensures
            Self::spec_from_str(s)->0.spec_str() == s,
    {
    }

    /// The error of a failed parse names the canonical string of every
    /// edition.
    pub proof fn lemma_names_every_value(value: Edition)
        ensures
            Self::spec_names().contains(value.spec_str()),
    {
        let names = Self::spec_names();
        assert(names[0] == "2015"@ && names[1] == "2018"@ && names[2] == "2021"@);
    }
}

/// The kind of crate that is built.
#[derive(Debug, Clone, Copy, PartialEq, Eq, PartialOrd, Ord, Hash, Structural)]
pub enum CrateType {
    Binary,
    Library,
}

impl CrateType {
    /// The canonical string of this crate type.
    pub open spec fn spec_str(&self) -> Seq<char> {
        match self {
            CrateType::Binary => "bin"@,
            CrateType::Library => "lib"@,
        }
    }

    /// The crate type whose canonical string is `s`, if there is one.
    pub open spec fn spec_from_str(s: Seq<char>) -> Option<CrateType> {
        if s == "bin"@ {
            Some(CrateType::Binary)
        } else if s == "lib"@ {
            Some(CrateType::Library)
        } else {
            None
        }
    }

    /// The canonical strings of all crate types.
    pub open spec fn spec_names() -> Seq<Seq<char>> {
        seq!["bin"@, "lib"@]
    }

    /// The canonical string of this crate type.
    pub fn as_str(&self) -> (r: &'static str)
        ensures
            r@ == self.spec_str(),
    {
        match self {
            CrateType::Binary => "bin",
            CrateType::Library => "lib",
        }
    }

    /// The canonical string of this crate type, owned.
    pub fn to_string(&self) -> (r: String)
        ensures
            r@ == self.spec_str(),
    {
        self.as_str().to_owned()
    }

    /// Strict parsing: the crate type whose canonical string is `s`; for any
    /// other string, an error that lists the canonical strings of all
    /// crate types.
    pub fn from_str(s: &str) -> (r: Result<CrateType, InvalidTypeError>)
        ensures
            match Self::spec_from_str(s@) {
                Some(value) => r == Ok::<CrateType, InvalidTypeError>(value),
                None => r matches Err(e) && e@ == Self::spec_names(),
            },
    {
        if same_text(s, "bin") {
            Ok(CrateType::Binary)
        } else if same_text(s, "lib") {
            Ok(CrateType::Library)
        } else {
            let e = InvalidTypeError::new(&["bin", "lib"]);
            assert(e@ =~= Self::spec_names());
            Err(e)
        }
    }

    /// Formatting a crate type and parsing the result gives it back.
    pub proof fn lemma_format_then_parse(value: CrateType)
        ensures
            Self::spec_from_str(value.spec_str()) == Some(value),
    {
        reveal_strlit("bin");
        reveal_strlit("lib");
        assert("bin"@[0] == 'b' && "lib"@[0] == 'l');
    }

    /// Parsing a string that names a crate type and formatting the result gives
    /// the identical string back.
    pub proof fn lemma_parse_then_format(s: Seq<char>)
        requires
            Self::spec_from_str(s) is Some,
        ensures
            Self::spec_from_str(s)->0.spec_str() == s,
    {
    }

    /// The error of a failed parse names the canonical string of every
    /// crate type.
    pub proof fn lemma_names_every_value(value: CrateType)
        ensures
            Self::spec_names().contains(value.spec_str()),
    {
        let names = Self::spec_names();
        assert(names[0] == "bin"@ && names[1] == "lib"@);
    }
}

/// The build profile.
#[derive(Debug, Clone, Copy, PartialEq, Eq, PartialOrd, Ord, Hash, Structural)]
pub enum BuildMode {
    Debug,
    Release,
}

impl Default for BuildMode {
    fn default() -> (r: Self)
        ensures
            r == BuildMode::Debug,
    {
        BuildMode::Debug
    }
}

impl BuildMode {
    /// The canonical string of this build mode.
    pub open spec fn spec_str(&self) -> Seq<char> {
        match self {
            BuildMode::Debug => "debug"@,
            BuildMode::Release => "release"@,
        }
    }

    /// The build mode whose canonical string is `s`, if there is one.
    pub open spec fn spec_from_str(s: Seq<char>) -> Option<BuildMode> {
        if s == "debug"@ {
            Some(BuildMode::Debug)
        } else if s == "release"@ {
            Some(BuildMode::Release)
        } else {
            None
        }
    }

    /// The canonical strings of all build modes.
    pub open spec fn spec_names() -> Seq<Seq<char>> {
        seq!["debug"@, "release"@]
    }

    /// The canonical string of this build mode.
    pub fn as_str(&self) -> (r: &'static str)
        ensures
            r@ == self.spec_str(),
    {
        match self {
            BuildMode::Debug => "debug",
            BuildMode::Release => "release",
        }
    }

    /// The canonical string of this build mode, owned.
    pub fn to_string(&self) -> (r: String)
        ensures
            r@ == self.spec_str(),
    {
        self.as_str().to_owned()
    }

    /// Strict parsing: the build mode whose canonical string is `s`; for any
    /// other string, an error that lists the canonical strings of all
    /// build modes.
    pub fn from_str(s: &str) -> (r: Result<BuildMode, InvalidTypeError>)
        ensures
            match Self::spec_from_str(s@) {
                Some(value) => r == Ok::<BuildMode, InvalidTypeError>(value),
                None => r matches Err(e) && e@ == Self::spec_names(),
            },
    {
        if same_text(s, "debug") {
            Ok(BuildMode::Debug)
        } else if same_text(s, "release") {
            Ok(BuildMode::Release)
        } else {
            let e = InvalidTypeError::new(&["debug", "release"]);
            assert(e@ =~= Self::spec_names());
            Err(e)
        }
    }

    /// Formatting a build mode and parsing the result gives it back.
    pub proof fn lemma_format_then_parse(value: BuildMode)
        ensures
            Self::spec_from_str(value.spec_str()) == Some(value),
    {
        reveal_strlit("debug");
        reveal_strlit("release");
        assert("debug"@.len() == 5 && "release"@.len() == 7);
    }

    /// Parsing a string that names a build mode and formatting the result gives
    /// the identical string back.
    pub proof fn lemma_parse_then_format(s: Seq<char>)
        requires
            Self::spec_from_str(s) is Some,
        ensures
            Self::spec_from_str(s)->0.spec_str() == s,
    {
    }

    /// The error of a failed parse names the canonical string of every
    /// build mode.
    pub proof fn lemma_names_every_value(value: BuildMode)
        ensures
            Self::spec_names().contains(value.spec_str()),
    {
        let names = Self::spec_names();
        assert(names[0] == "debug"@ && names[1] == "release"@);
    }
}

} // verus!
