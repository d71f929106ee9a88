//! `ToolSpec`: a request for a tool, with or without an exact version,
//! written `scope/name` or `scope/name@version`.

use vstd::prelude::*;

use crate::error::{ParseError, ParseErrorKind, Subject};
use crate::text::{all_white, has_char, lemma_split_joined, split_first, str_all_white};
use crate::tool_id::{before_at, split_at_sign};
use crate::tool_name::{
    lemma_name_round_trip, name_text, name_wf, parse_name_parts, parse_name_spec, ToolName,
    ToolNameView,
};
use crate::version::{decimal, semver_read, version_text, version_wf, Version, VersionView};

verus! {

/// A request for a tool: its name and, optionally, an exact version. With
/// no version it asks for the newest release that suits the host.
#[derive(Debug, PartialEq, Eq)]
pub struct ToolSpec {
    name: ToolName,
    version: Option<Version>,
}

pub struct ToolSpecView {
    pub name: ToolNameView,
    pub version: Option<VersionView>,
}

impl View for ToolSpec {
    type V = ToolSpecView;

    closed spec fn view(&self) -> ToolSpecView {
        ToolSpecView {
            name: self.name@,
            version: match self.version {
                Some(v) => Some(v@),
                None => None,
            },
        }
    }
}

pub open spec fn spec_wf(s: ToolSpecView) -> bool {
    &&& name_wf(s.name)
    &&& s.version matches Some(v) ==> version_wf(v)
}

/// The canonical text `scope/name` or `scope/name@version`.
pub open spec fn spec_text(s: ToolSpecView) -> Seq<char> {
    match s.version {
        Some(v) => name_text(s.name) + seq!['@'] + version_text(v),
        None => name_text(s.name),
    }
}

/// How `text` reads as a tool spec: the name before the first `@`, then,
/// if there is an `@`, a version that must not be blank.
pub open spec fn parse_spec_spec(text: Seq<char>) -> Result<ToolSpecView, ParseErrorKind> {
    match parse_name_spec(before_at(text)) {
        Err(k) => Err(k),
        Ok(name) => match split_first(text, '@') {
            None => Ok(ToolSpecView { name, version: None }),
            Some((_, v)) => if v.len() == 0 || all_white(v) {
                Err(ParseErrorKind::VersionEmpty)
            } else {
                match semver_read(v) {
                    Some(version) => Ok(ToolSpecView { name, version: Some(version) }),
                    None => Err(ParseErrorKind::InvalidVersion),
                }
            },
        },
    }
}

/// Reading the canonical text of a valid tool spec gives that spec back,
/// for every spec whose name text holds no `@`.
pub proof fn lemma_spec_round_trip(s: ToolSpecView)
    requires
        spec_wf(s),
        !has_char(name_text(s.name), '@'),
    ensures
        parse_spec_spec(spec_text(s)) == Ok::<ToolSpecView, ParseErrorKind>(s),
{
    lemma_name_round_trip(s.name);
    match s.version {
        None => {
            assert(split_first(name_text(s.name), '@') is None);
        },
        Some(v) => {
            lemma_split_joined(name_text(s.name), '@', version_text(v));
            let t = version_text(v);
            let k = decimal(v.major).len() as int;
            assert(t[k] == '.');
            assert(!all_white(t));
        },
    }
}

impl ToolSpec {
    pub fn new(name: ToolName, version: Option<Version>) -> (r: ToolSpec)
        ensures
            r@.name == name@,
            r@.version == match version {
                Some(v) => Some(v@),
                None => None::<VersionView>,
            },
    {
        ToolSpec { name, version }
    }

    pub fn name(&self) -> (r: &ToolName)
        ensures
            r@ == self@.name,
    {
        &self.name
    }

    pub fn version(&self) -> (r: Option<&Version>)
        ensures
            match r {
                Some(v) => self@.version == Some(v@),
                None => self@.version is None,
            },
    {
        match &self.version {
            Some(v) => Some(v),
            None => None,
        }
    }

    /// The canonical text `scope/name` or `scope/name@version`.
    pub fn to_string(&self) -> (r: String)
        ensures
            r@ == spec_text(self@),
    {
        let mut r = self.name.to_string();
        match &self.version {
            Some(v) => {
                r.append("@");
                let t = v.to_string();
                r.append(t.as_str());
                proof {
                    reveal_strlit("@");
                }
            },
            None => {},
        }
        r
    }

    /// Reads `scope/name` or `scope/name@version`.
    pub fn parse(value: &str) -> (r: Result<ToolSpec, ParseError>)
        ensures
            r matches Ok(s) ==> parse_spec_spec(value@) == Ok::<ToolSpecView, ParseErrorKind>(
                s@,
            ),
            r matches Err(e) ==> parse_spec_spec(value@) == Err::<ToolSpecView, ParseErrorKind>(
                e.kind,
            ) && e.subject == Subject::ToolSpec && e.input@ == value@,
    {
        match parse_spec_parts(value) {
            Ok(s) => Ok(s),
            Err(kind) => Err(ParseError { subject: Subject::ToolSpec, input: value.to_owned(), kind }),
        }
    }
}

/// The tool spec that `value` reads as, or the rule it breaks.
pub fn parse_spec_parts(value: &str) -> (r: Result<ToolSpec, ParseErrorKind>)
    ensures
        r matches Ok(s) ==> parse_spec_spec(value@) == Ok::<ToolSpecView, ParseErrorKind>(s@),
        r matches Err(k) ==> parse_spec_spec(value@) == Err::<ToolSpecView, ParseErrorKind>(k),
{
    let (name_part, version_part) = split_at_sign(value);
    let name = parse_name_parts(name_part)?;
    match version_part {
        None => Ok(ToolSpec { name, version: None }),
        Some(v) => {
            if v.unicode_len() == 0 || str_all_white(v) {
                return Err(ParseErrorKind::VersionEmpty);
            }
            match Version::parse(v) {
                Some(version) => Ok(ToolSpec { name, version: Some(version) }),
                None => Err(ParseErrorKind::InvalidVersion),
            }
        },
    }
}

impl Clone for ToolSpec {
    fn clone(&self) -> (r: Self)
        ensures
            r == *self,
    {
        ToolSpec {
            name: self.name.clone(),
            version: match &self.version {
                Some(v) => Some(v.clone()),
                None => None,
            },
        }
    }
}

impl std::str::FromStr for ToolSpec {
    type Err = ParseError;

    fn from_str(value: &str) -> Result<ToolSpec, ParseError> {
        ToolSpec::parse(value)
    }
}

} // verus!
