//! `ToolId`: a tool name with one exact version, written `scope/name@version`.

use vstd::prelude::*;

use crate::error::{ParseError, ParseErrorKind, Subject};
use crate::text::{find_char, has_char, lemma_split_first_at, lemma_split_joined, split_first};
use crate::tool_name::{
    lemma_name_round_trip, name_cmp, name_text, name_wf, parse_name_parts, parse_name_spec, ToolName,
    ToolNameView,
};
use crate::version::{flip, semver_read, version_cmp, version_text, version_wf, Version, VersionView};

verus! {

/// A fully resolved, installable tool: a name and an exact version.
#[derive(Debug, PartialEq, Eq)]
pub struct ToolId {
    name: ToolName,
    version: Version,
}

pub struct ToolIdView {
    pub name: ToolNameView,
    pub version: VersionView,
}

impl View for ToolId {
    type V = ToolIdView;

    closed spec fn view(&self) -> ToolIdView {
        ToolIdView { name: self.name@, version: self.version@ }
    }
}

pub open spec fn id_wf(id: ToolIdView) -> bool {
    name_wf(id.name) && version_wf(id.version)
}

/// The canonical text `scope/name@version`.
pub open spec fn id_text(id: ToolIdView) -> Seq<char> {
    name_text(id.name) + seq!['@'] + version_text(id.version)
}

/// The part of `text` before its first `@` (all of it when there is none).
pub open spec fn before_at(text: Seq<char>) -> Seq<char> {
    match split_first(text, '@') {
        Some((a, _)) => a,
        None => text,
    }
}

/// How `text` reads as a tool id: the name before the first `@`, then the
/// version after it.
pub open spec fn parse_id_spec(text: Seq<char>) -> Result<ToolIdView, ParseErrorKind> {
    match parse_name_spec(before_at(text)) {
        Err(k) => Err(k),
        Ok(name) => match split_first(text, '@') {
            None => Err(ParseErrorKind::VersionMissing),
            Some((_, v)) => match semver_read(v) {
                Some(version) => Ok(ToolIdView { name, version }),
                None => Err(ParseErrorKind::InvalidVersion),
            },
        },
    }
}

/// Reading the canonical text of a valid tool id gives that id back, for
/// every id whose name text holds no `@` (an `@` there would be taken for
/// the start of the version).
pub proof fn lemma_id_round_trip(id: ToolIdView)
    requires
        id_wf(id),
        !has_char(name_text(id.name), '@'),
    ensures
        parse_id_spec(id_text(id)) == Ok::<ToolIdView, ParseErrorKind>(id),
{
    lemma_split_joined(name_text(id.name), '@', version_text(id.version));
    lemma_name_round_trip(id.name);
}

/// The order of two ids: by name, then by version.
pub closed spec fn id_cmp(a: ToolIdView, b: ToolIdView) -> std::cmp::Ordering {
    if name_cmp(a.name, b.name) != std::cmp::Ordering::Equal {
        name_cmp(a.name, b.name)
    } else {
        version_cmp(a.version, b.version)
    }
}

impl ToolId {
    /// The order of the two ids: by name, then by version.
    pub fn compare(&self, other: &ToolId) -> (r: std::cmp::Ordering)
        ensures
            r == id_cmp(self@, other@),
            name_cmp(self@.name, other@.name) != std::cmp::Ordering::Equal ==> r == name_cmp(
                self@.name,
                other@.name,
            ),
            self@.name == other@.name ==> r == version_cmp(self@.version, other@.version),
            id_cmp(other@, self@) == flip(r),
            r == std::cmp::Ordering::Equal <==> self@ == other@,
    {
        match self.name.compare(&other.name) {
            std::cmp::Ordering::Equal => self.version.compare(&other.version),
            o => o,
        }
    }

    pub fn new(name: ToolName, version: Version) -> (r: ToolId)
        ensures
            r@ == (ToolIdView { name: name@, version: version@ }),
    {
        ToolId { name, version }
    }

    pub fn name(&self) -> (r: &ToolName)
        ensures
            r@ == self@.name,
    {
        &self.name
    }

    pub fn version(&self) -> (r: &Version)
        ensures
            r@ == self@.version,
    {
        &self.version
    }

    /// Whether the two ids name the same tool at the same version.
    pub fn same_as(&self, other: &ToolId) -> (r: bool)
        ensures
            r == (self@ == other@),
    {
        self.name.same_as(&other.name) && self.version.same_as(&other.version)
    }

    /// The canonical text `scope/name@version`.
    pub fn to_string(&self) -> (r: String)
        ensures
            r@ == id_text(self@),
    {
        let mut r = self.name.to_string();
        r.append("@");
        let v = self.version.to_string();
        r.append(v.as_str());
        proof {
            reveal_strlit("@");
        }
        r
    }

    /// Reads `scope/name@version`.
    pub fn parse(value: &str) -> (r: Result<ToolId, ParseError>)
        ensures
            r matches Ok(id) ==> parse_id_spec(value@) == Ok::<ToolIdView, ParseErrorKind>(id@),
            r matches Err(e) ==> parse_id_spec(value@) == Err::<ToolIdView, ParseErrorKind>(
                e.kind,
            ) && e.subject == Subject::ToolId && e.input@ == value@,
    {
        match parse_id_parts(value) {
            Ok(id) => Ok(id),
            Err(kind) => Err(ParseError { subject: Subject::ToolId, input: value.to_owned(), kind }),
        }
    }
}

/// `value` split at its first `@`: the name part and, when there is an `@`,
/// the version part.
pub fn split_at_sign(value: &str) -> (r: (&str, Option<&str>))
    ensures
        r.0@ == before_at(value@),
        match r.1 {
            Some(v) => split_first(value@, '@') == Some((r.0@, v@)),
            None => split_first(value@, '@') is None,
        },
{
    let n = value.unicode_len();
    match find_char(value, '@') {
        None => (value, None),
        Some(i) => {
            proof {
                lemma_split_first_at(value@, '@', i as int);
            }
            let a = value.substring_char(0, i);
            let b = value.substring_char(i + 1, n);
            assert(a@ =~= value@.take(i as int));
            assert(b@ =~= value@.skip(i + 1));
            (a, Some(b))
        },
    }
}

/// The tool id that `value` reads as, or the rule it breaks.
pub fn parse_id_parts(value: &str) -> (r: Result<ToolId, ParseErrorKind>)
    ensures
        r matches Ok(id) ==> parse_id_spec(value@) == Ok::<ToolIdView, ParseErrorKind>(id@),
        r matches Err(k) ==> parse_id_spec(value@) == Err::<ToolIdView, ParseErrorKind>(k),
{
    let (name_part, version_part) = split_at_sign(value);
    let name = parse_name_parts(name_part)?;
    match version_part {
        None => Err(ParseErrorKind::VersionMissing),
        Some(v) => match Version::parse(v) {
            Some(version) => Ok(ToolId { name, version }),
            None => Err(ParseErrorKind::InvalidVersion),
        },
    }
}

impl Clone for ToolId {
    fn clone(&self) -> (r: Self)
        ensures
            r == *self,
    {
        ToolId { name: self.name.clone(), version: self.version.clone() }
    }
}

impl std::str::FromStr for ToolId {
    type Err = ParseError;

    fn from_str(value: &str) -> Result<ToolId, ParseError> {
        ToolId::parse(value)
    }
}

} // verus!
