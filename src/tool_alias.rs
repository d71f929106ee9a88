//! `ToolAlias`: the local name under which a manifest binds a tool.

use vstd::prelude::*;

use crate::error::{ParseError, ParseErrorKind, Subject};
use crate::ident::{check_ident, ident_problem, valid_ident, IdentError};

verus! {

/// The name a tool is invoked by; it follows the identifier rules.
#[derive(Debug, PartialEq, Eq)]
pub struct ToolAlias {
    name: String,
}

impl View for ToolAlias {
    type V = Seq<char>;

    closed spec fn view(&self) -> Seq<char> {
        self.name@
    }
}

impl ToolAlias {
    pub fn new(name: &str) -> (r: Result<ToolAlias, IdentError>)
        ensures
            r is Ok <==> valid_ident(name@),
            r matches Ok(a) ==> a@ == name@,
            r matches Err(e) ==> e.subject@ == "Tool Name"@ && Some(e.problem) == ident_problem(
                name@,
            ),
    {
        check_ident("Tool Name", name)?;
        Ok(ToolAlias { name: name.to_owned() })
    }

    /// An alias from text already known to follow the identifier rules.
    pub(crate) fn from_valid(name: &str) -> (r: ToolAlias)
        requires
            valid_ident(name@),
        ensures
            r@ == name@,
    {
        ToolAlias { name: name.to_owned() }
    }

    /// Reads an alias; the error names the rule that `value` breaks.
    pub fn parse(value: &str) -> (r: Result<ToolAlias, ParseError>)
        ensures
            r is Ok <==> valid_ident(value@),
            r matches Ok(a) ==> a@ == value@,
            r matches Err(e) ==> e.subject == Subject::ToolAlias && e.input@ == value@ && Some(
                e.kind,
            ) == match ident_problem(value@) {
                Some(p) => Some(ParseErrorKind::InvalidName(p)),
                None => None,
            },
    {
        match ToolAlias::new(value) {
            Ok(a) => Ok(a),
            Err(e) => Err(
                ParseError {
                    subject: Subject::ToolAlias,
                    input: value.to_owned(),
                    kind: ParseErrorKind::InvalidName(e.problem),
                },
            ),
        }
    }

    pub fn as_str(&self) -> (r: &str)
        ensures
            r@ == self@,
    {
        self.name.as_str()
    }

    pub fn to_string(&self) -> (r: String)
        ensures
            r@ == self@,
    {
        self.name.clone()
    }
}

impl Clone for ToolAlias {
    fn clone(&self) -> (r: Self)
        ensures
            r == *self,
    {
        ToolAlias { name: self.name.clone() }
    }
}

impl std::str::FromStr for ToolAlias {
    type Err = ParseError;

    fn from_str(value: &str) -> Result<ToolAlias, ParseError> {
        ToolAlias::parse(value)
    }
}

} // verus!
