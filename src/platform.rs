//! Build platforms, named by short identifiers such as `win10_64` or `cent7`.
use vstd::prelude::*;

verus! {

/// What `str::to_lowercase` makes of a sequence of characters.
pub uninterp spec fn lower_of(s: Seq<char>) -> Seq<char>;

/// Relies on str::to_lowercase: the lowercase form of the text, which
/// depends on its characters alone.
#[verifier::external_body]
fn lowercase(s: &str) -> (r: String)
    ensures
        r@ == lower_of(s@),
{
    s.to_lowercase()
}

/// The failure to name a platform.
#[derive(Debug, PartialEq, Eq)]
pub enum LocusError {
    /// The text names no known platform.
    InvalidPlatform(String),
}

/// A build platform.
#[derive(Debug, PartialEq, Eq, Structural, Hash, Clone, Copy)]
pub enum Platform {
    Win7_64,
    Win10_64,
    Osx10_64,
    Cent6_64,
    Cent7_64,
    Cent8_64,
}

/// The platform that a lowercase name stands for: its full name, or the
/// name without the `_64` suffix.
pub open spec fn platform_named(name: Seq<char>) -> Option<Platform> {
    if name == "win7_64"@ || name == "win7"@ {
        Some(Platform::Win7_64)
    } else if name == "win10_64"@ || name == "win10"@ {
        Some(Platform::Win10_64)
    } else if name == "osx10_64"@ || name == "osx10"@ {
        Some(Platform::Osx10_64)
    } else if name == "cent6_64"@ || name == "cent6"@ {
        Some(Platform::Cent6_64)
    } else if name == "cent7_64"@ || name == "cent7"@ {
        Some(Platform::Cent7_64)
    } else if name == "cent8_64"@ || name == "cent8"@ {
        Some(Platform::Cent8_64)
    } else {
        None
    }
}

/// The full name of a platform.
pub open spec fn platform_name(p: Platform) -> Seq<char> {
    match p {
        Platform::Win7_64 => "win7_64"@,
        Platform::Win10_64 => "win10_64"@,
        Platform::Osx10_64 => "osx10_64"@,
        Platform::Cent6_64 => "cent6_64"@,
        Platform::Cent7_64 => "cent7_64"@,
        Platform::Cent8_64 => "cent8_64"@,
    }
}

/// Whether `s` holds exactly the text of `lit`.
fn is_name(s: &String, lit: &str) -> (r: bool)
    ensures
        r == (s@ == lit@),
{
    s.eq(&lit.to_owned())
}

impl Platform {
    /// The platform that an already lowercase name stands for.
    pub fn from_lowercase(name: &String) -> (r: Option<Platform>)
        ensures
            r == platform_named(name@),
    {
        if is_name(name, "win7_64") || is_name(name, "win7") {
            Some(Platform::Win7_64)
        } else if is_name(name, "win10_64") || is_name(name, "win10") {
            Some(Platform::Win10_64)
        } else if is_name(name, "osx10_64") || is_name(name, "osx10") {
            Some(Platform::Osx10_64)
        } else if is_name(name, "cent6_64") || is_name(name, "cent6") {
            Some(Platform::Cent6_64)
        } else if is_name(name, "cent7_64") || is_name(name, "cent7") {
            Some(Platform::Cent7_64)
        } else if is_name(name, "cent8_64") || is_name(name, "cent8") {
            Some(Platform::Cent8_64)
        } else {
            None
        }
    }

    /// The platform that `input` names, in any letter case; text that names
    /// none is `InvalidPlatform`, carrying the text.
    pub fn from(input: &str) -> (r: Result<Platform, LocusError>)
        ensures
            r matches Ok(p) ==> platform_named(lower_of(input@)) == Some(p),
            r matches Err(LocusError::InvalidPlatform(s)) ==> s@ == input@ && platform_named(
                lower_of(input@),
            ) is None,
            platform_named(lower_of(input@)) is Some <==> r is Ok,
    {
        let lower = lowercase(input);
        match Platform::from_lowercase(&lower) {
            Some(p) => Ok(p),
            None => Err(LocusError::InvalidPlatform(input.to_owned())),
        }
    }

    /// The full name of the platform.
    pub fn as_str(&self) -> (r: &'static str)
        ensures
            r@ == platform_name(*self),
    {
        match self {
            Platform::Cent8_64 => "cent8_64",
            Platform::Cent7_64 => "cent7_64",
            Platform::Cent6_64 => "cent6_64",
            Platform::Win10_64 => "win10_64",
            Platform::Win7_64 => "win7_64",
            Platform::Osx10_64 => "osx10_64",
        }
    }
}

impl core::str::FromStr for Platform {
    type Err = LocusError;

    fn from_str(s: &str) -> Result<Platform, LocusError> {
        Platform::from(s)
    }
}

} // verus!
