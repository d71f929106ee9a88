//! `Version`: a semantic version held as plain values. Reading one from text
//! and ordering two are done by the `semver` crate.

use vstd::prelude::*;

use std::cmp::Ordering;

verus! {

/// The decimal digit for `d` (below ten).
pub open spec fn digit_char(d: int) -> char {
    "0123456789"@[d]
}

/// The decimal text of `n`, without leading zeros.
pub open spec fn decimal(n: nat) -> Seq<char>
    decreases n,
{
    if n < 10 {
        seq![digit_char(n as int)]
    } else {
        decimal(n / 10) + seq![digit_char((n % 10) as int)]
    }
}

/// Appends the decimal text of `n` to `out`.
pub fn write_decimal(n: u64, out: &mut String)
    ensures
        final(out)@ == old(out)@ + decimal(n as nat),
    decreases n,
{
    let digits = "0123456789";
    proof {
        reveal_strlit("0123456789");
    }
    if n >= 10 {
        write_decimal(n / 10, out);
    }
    let d = (n % 10) as usize;
    let s = digits.substring_char(d, d + 1);
    assert(s@ =~= seq![digit_char(d as int)]);
    out.append(s);
    assert(final(out)@ =~= old(out)@ + decimal(n as nat));
}

/// A semantic version: `major.minor.patch`, an optional pre-release part
/// and optional build metadata.
#[derive(Debug, PartialEq, Eq)]
pub struct Version {
    major: u64,
    minor: u64,
    patch: u64,
    pre: String,
    build: String,
}

/// What a `Version` stands for.
pub struct VersionView {
    pub major: nat,
    pub minor: nat,
    pub patch: nat,
    pub pre: Seq<char>,
    pub build: Seq<char>,
}

impl View for Version {
    type V = VersionView;

    closed spec fn view(&self) -> VersionView {
        VersionView {
            major: self.major as nat,
            minor: self.minor as nat,
            patch: self.patch as nat,
            pre: self.pre@,
            build: self.build@,
        }
    }
}

/// The canonical text `major.minor.patch[-pre][+build]`.
pub open spec fn version_text(v: VersionView) -> Seq<char> {
    decimal(v.major) + seq!['.'] + decimal(v.minor) + seq!['.'] + decimal(v.patch) + (if v.pre.len()
        > 0 {
        seq!['-'] + v.pre
    } else {
        Seq::empty()
    }) + (if v.build.len() > 0 {
        seq!['+'] + v.build
    } else {
        Seq::empty()
    })
}

/// The version that `semver` reads from `text`, if it accepts it.
pub uninterp spec fn semver_read(text: Seq<char>) -> Option<VersionView>;

/// How `semver` orders the versions written `a` and `b`.
pub uninterp spec fn semver_order(a: Seq<char>, b: Seq<char>) -> Ordering;

/// A version that `semver` reads back from its own text.
pub open spec fn version_wf(v: VersionView) -> bool {
    semver_read(version_text(v)) == Some(v)
}

/// The order of two integers.
pub open spec fn int_cmp(a: int, b: int) -> Ordering {
    if a < b {
        Ordering::Less
    } else if a > b {
        Ordering::Greater
    } else {
        Ordering::Equal
    }
}

/// The order of `(major, minor, patch)`, lexicographically.
pub open spec fn core_cmp(a: VersionView, b: VersionView) -> Ordering {
    if a.major != b.major {
        int_cmp(a.major as int, b.major as int)
    } else if a.minor != b.minor {
        int_cmp(a.minor as int, b.minor as int)
    } else {
        int_cmp(a.patch as int, b.patch as int)
    }
}

pub open spec fn flip(o: Ordering) -> Ordering {
    match o {
        Ordering::Less => Ordering::Greater,
        Ordering::Greater => Ordering::Less,
        Ordering::Equal => Ordering::Equal,
    }
}

/// The order of two versions as `semver` defines it.
pub open spec fn version_cmp(a: VersionView, b: VersionView) -> Ordering {
    semver_order(version_text(a), version_text(b))
}

#[verifier::external_type_specification]
#[verifier::external_body]
pub struct ExSemverError(semver::Error);

/// Relies on `semver::Version::parse`: it accepts the text of a SemVer 2.0
/// version and nothing else, and the fields it returns are the parts of that
/// text (no leading zeros, the pre-release and build parts as written).
#[verifier::external_body]
fn semver_parse(text: &str) -> (r: Result<Version, semver::Error>)
    ensures
        r is Err ==> semver_read(text@) is None,
        r matches Ok(v) ==> semver_read(text@) == Some(v@) && version_text(v@) == text@,
{
    match semver::Version::parse(text) {
        Ok(v) => Ok(Version {
            major: v.major,
            minor: v.minor,
            patch: v.patch,
            pre: v.pre.as_str().to_owned(),
            build: v.build.as_str().to_owned(),
        }),
        Err(e) => Err(e),
    }
}

/// Relies on semver's `Ord for Version`: a total order that compares major,
/// minor and patch numerically first, then pre-release precedence, then
/// build metadata; two versions compare equal only when all parts are equal.
#[verifier::external_body]
fn semver_cmp(a: &Version, b: &Version) -> (r: Ordering)
    requires
        version_wf(a@),
        version_wf(b@),
    ensures
        r == semver_order(version_text(a@), version_text(b@)),
        semver_order(version_text(b@), version_text(a@)) == flip(r),
        r == Ordering::Equal <==> a@ == b@,
        core_cmp(a@, b@) != Ordering::Equal ==> r == core_cmp(a@, b@),
{
    let x = semver::Version {
        major: a.major, minor: a.minor, patch: a.patch,
        pre: semver::Prerelease::new(&a.pre).unwrap_or_default(),
        build: semver::BuildMetadata::new(&a.build).unwrap_or_default(),
    };
    let y = semver::Version {
        major: b.major, minor: b.minor, patch: b.patch,
        pre: semver::Prerelease::new(&b.pre).unwrap_or_default(),
        build: semver::BuildMetadata::new(&b.build).unwrap_or_default(),
    };
    x.cmp(&y)
}

impl Version {
    /// Every version is one that `semver` reads back from its own text: the
    /// only way to make one is to read it.
    #[verifier::type_invariant]
    pub open spec fn inv(self) -> bool {
        version_wf(self@)
    }

    /// Reads a semantic version such as `1.2.3` or `1.0.0-beta.2+build.5`.
    pub fn parse(text: &str) -> (r: Option<Version>)
        ensures
            r is None ==> semver_read(text@) is None,
            r matches Some(v) ==> semver_read(text@) == Some(v@) && version_text(v@) == text@
                && version_wf(v@),
    {
        match semver_parse(text) {
            Ok(v) => Some(v),
            Err(_) => None,
        }
    }

    pub fn major(&self) -> (r: u64)
        ensures
            r == self@.major,
    {
        self.major
    }

    pub fn minor(&self) -> (r: u64)
        ensures
            r == self@.minor,
    {
        self.minor
    }

    pub fn patch(&self) -> (r: u64)
        ensures
            r == self@.patch,
    {
        self.patch
    }

    pub fn pre(&self) -> (r: &str)
        ensures
            r@ == self@.pre,
    {
        self.pre.as_str()
    }

    pub fn build(&self) -> (r: &str)
        ensures
            r@ == self@.build,
    {
        self.build.as_str()
    }

    /// Whether the two versions are the same in every part.
    pub fn same_as(&self, other: &Version) -> (r: bool)
        ensures
            r == (self@ == other@),
    {
        self.major == other.major && self.minor == other.minor && self.patch == other.patch
            && self.pre == other.pre && self.build == other.build
    }

    /// The order of the two versions by SemVer precedence (build metadata
    /// breaking ties).
    pub fn compare(&self, other: &Version) -> (r: Ordering)
        ensures
            r == version_cmp(self@, other@),
            version_cmp(other@, self@) == flip(r),
            r == Ordering::Equal <==> self@ == other@,
            core_cmp(self@, other@) != Ordering::Equal ==> r == core_cmp(self@, other@),
    {
        proof {
            use_type_invariant(self);
            use_type_invariant(other);
        }
        semver_cmp(self, other)
    }

    /// The canonical text `major.minor.patch[-pre][+build]`.
    pub fn to_string(&self) -> (r: String)
        ensures
            r@ == version_text(self@),
    {
        let mut r = String::new();
        write_decimal(self.major, &mut r);
        r.append(".");
        write_decimal(self.minor, &mut r);
        r.append(".");
        write_decimal(self.patch, &mut r);
        if self.pre.unicode_len() > 0 {
            r.append("-");
            r.append(self.pre.as_str());
        }
        if self.build.unicode_len() > 0 {
            r.append("+");
            r.append(self.build.as_str());
        }
        proof {
            reveal_strlit(".");
            reveal_strlit("-");
            reveal_strlit("+");
        }
        assert(r@ =~= version_text(self@));
        r
    }
}

impl Clone for Version {
    fn clone(&self) -> (r: Self)
        ensures
            r == *self,
    {
        proof {
            use_type_invariant(self);
        }
        Version {
            major: self.major,
            minor: self.minor,
            patch: self.patch,
            pre: self.pre.clone(),
            build: self.build.clone(),
        }
    }
}

} // verus!
