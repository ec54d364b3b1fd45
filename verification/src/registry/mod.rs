//! Registry version model: parsed semantic versions paired with their original tags.
pub mod docker;
pub mod helm;

use vstd::prelude::*;

use crate::text::chars_of;
use crate::text::copy_string;
use crate::text::count_char;
use crate::text::count_char_in;
use crate::text::strip_prefix_char;

verus! {

/// A parsed semantic version, held as plain values.
#[derive(Debug, Clone, PartialEq, Eq)]
pub struct SemVer {
    pub major: u64,
    pub minor: u64,
    pub patch: u64,
    /// Pre-release identifiers (`beta.1` in `1.0.0-beta.1`); empty for a release.
    pub pre: String,
    /// Build metadata (`build.5` in `1.0.0+build.5`); empty when absent.
    pub build: String,
}

pub struct SemVerView {
    pub major: u64,
    pub minor: u64,
    pub patch: u64,
    pub pre: Seq<char>,
    pub build: Seq<char>,
}

impl View for SemVer {
    type V = SemVerView;

    open spec fn view(&self) -> SemVerView {
        SemVerView {
            major: self.major,
            minor: self.minor,
            patch: self.patch,
            pre: self.pre@,
            build: self.build@,
        }
    }
}

impl SemVer {
    /// A copy with the same value.
    pub fn duplicate(&self) -> (r: Self)
        ensures
            r@ == self@,
    {
        SemVer {
            major: self.major,
            minor: self.minor,
            patch: self.patch,
            pre: copy_string(&self.pre),
            build: copy_string(&self.build),
        }
    }
}

pub open spec fn opt_semver_view(o: Option<SemVer>) -> Option<SemVerView> {
    match o {
        Some(v) => Some(v@),
        None => None,
    }
}

/// The version that `semver::Version::parse` reads from a text, if it accepts it.
pub uninterp spec fn semver_parse(text: Seq<char>) -> Option<SemVerView>;

/// The order that semver gives two build-metadata texts (-1, 0 or 1), when both are valid.
pub uninterp spec fn semver_build_order(a: Seq<char>, b: Seq<char>) -> Option<i8>;

/// Parses a strict semantic version.
/// Trusted: calls `semver::Version::parse` and copies its five fields; the
/// result is named `semver_parse` of the text.
#[verifier::external_body]
pub(crate) fn parse_semver(text: &str) -> (r: Option<SemVer>)
    ensures
        opt_semver_view(r) == semver_parse(text@),
{
    match semver::Version::parse(text) {
        Ok(v) => Some(SemVer {
            major: v.major,
            minor: v.minor,
            patch: v.patch,
            pre: v.pre.as_str().to_string(),
            build: v.build.as_str().to_string(),
        }),
        Err(_) => None,
    }
}

/// Compares two build-metadata texts in semver's order.
/// Trusted: builds `semver::BuildMetadata` from each text and calls `cmp`;
/// the result is named `semver_build_order` of the two texts.
#[verifier::external_body]
pub(crate) fn compare_build(a: &String, b: &String) -> (r: Option<i8>)
    ensures
        r == semver_build_order(a@, b@),
{
    match (semver::BuildMetadata::new(a), semver::BuildMetadata::new(b)) {
        (Ok(x), Ok(y)) => match x.cmp(&y) {
            std::cmp::Ordering::Less => Some(-1),
            std::cmp::Ordering::Equal => Some(0),
            std::cmp::Ordering::Greater => Some(1),
        },
        _ => None,
    }
}

/// A resolved version from a registry: a parsed version plus the exact tag text.
#[derive(Debug, Clone, PartialEq, Eq)]
pub struct VersionInfo {
    /// Parsed semver version for comparison and policy evaluation.
    pub version: SemVer,
    /// Original tag string exactly as it appears in the registry.
    pub original_tag: String,
}

pub struct VersionInfoView {
    pub version: SemVerView,
    pub original_tag: Seq<char>,
}

impl View for VersionInfo {
    type V = VersionInfoView;

    open spec fn view(&self) -> VersionInfoView {
        VersionInfoView { version: self.version@, original_tag: self.original_tag@ }
    }
}

impl VersionInfo {
    /// A copy with the same value.
    pub fn duplicate(&self) -> (r: Self)
        ensures
            r@ == self@,
    {
        VersionInfo { version: self.version.duplicate(), original_tag: copy_string(&self.original_tag) }
    }
}

/// Lenient version reading: a leading `v` is dropped, then a strict parse is tried;
/// failing that, one-part texts get `.0.0` and two-part texts get `.0` appended.
pub open spec fn parse_version_lenient_spec(tag: Seq<char>) -> Option<SemVerView> {
    let cleaned = strip_prefix_char(tag, 'v');
    match semver_parse(cleaned) {
        Some(v) => Some(v),
        None => {
            let parts = count_char(cleaned, '.') + 1;
            if parts == 1 {
                semver_parse(cleaned + ".0.0"@)
            } else if parts == 2 {
                semver_parse(cleaned + ".0"@)
            } else {
                None
            }
        },
    }
}

/// Parses a version string leniently (`v1.2.3`, `1.25`, `7` are all accepted).
pub fn parse_version_lenient(tag: &str) -> (r: Option<SemVer>)
    ensures
        opt_semver_view(r) == parse_version_lenient_spec(tag@),
{
    let v = chars_of(tag);
    let cleaned_chars = if v.len() > 0 && v[0] == 'v' {
        crate::text::slice_of(&v, 1, v.len())
    } else {
        crate::text::slice_of(&v, 0, v.len())
    };
    assert(cleaned_chars@ =~= strip_prefix_char(tag@, 'v'));
    let cleaned = crate::text::string_of(&cleaned_chars);
    match parse_semver(cleaned.as_str()) {
        Some(x) => Some(x),
        None => {
            let dots = count_char_in(&cleaned_chars, '.');
            if dots == 0 {
                let padded = cleaned.concat(".0.0");
                parse_semver(padded.as_str())
            } else if dots == 1 {
                let padded = cleaned.concat(".0");
                parse_semver(padded.as_str())
            } else {
                None
            }
        },
    }
}

} // verus!
