//! The rule that every identifier component (a scope, a name, an alias)
//! must follow.

use vstd::prelude::*;

use crate::text::{all_white, has_char, str_all_white, find_char};

verus! {

/// Which rule an identifier broke.
#[derive(Debug, Clone, Copy, PartialEq, Eq, Structural)]
pub enum IdentProblem {
    /// It holds no characters at all.
    Empty,
    /// It holds only white space.
    Blank,
    /// It holds a `/`, which separates a scope from a name.
    ContainsSlash,
}

/// An identifier that broke a rule: what it was meant to be (`"Scope"`,
/// `"Name"`, ...) and which rule.
#[derive(Debug, Clone, PartialEq, Eq)]
pub struct IdentError {
    pub subject: String,
    pub problem: IdentProblem,
}

/// The first rule, in the order they are checked, that `s` breaks.
pub open spec fn ident_problem(s: Seq<char>) -> Option<IdentProblem> {
    if s.len() == 0 {
        Some(IdentProblem::Empty)
    } else if all_white(s) {
        Some(IdentProblem::Blank)
    } else if has_char(s, '/') {
        Some(IdentProblem::ContainsSlash)
    } else {
        None
    }
}

/// Non-empty, not only white space, and free of `/`.
pub open spec fn valid_ident(s: Seq<char>) -> bool {
    ident_problem(s) is None
}

/// Checks `ident` against the identifier rules; an error names
/// `ident_type` and the first rule broken.
pub fn check_ident(ident_type: &str, ident: &str) -> (r: Result<(), IdentError>)
    ensures
        r is Ok <==> valid_ident(ident@),
        r matches Err(e) ==> e.subject@ == ident_type@ && Some(e.problem) == ident_problem(ident@),
{
    let problem = if ident.unicode_len() == 0 {
        Some(IdentProblem::Empty)
    } else if str_all_white(ident) {
        Some(IdentProblem::Blank)
    } else if find_char(ident, '/').is_some() {
        Some(IdentProblem::ContainsSlash)
    } else {
        None
    };
    match problem {
        Some(problem) => Err(IdentError { subject: String::from_str(ident_type), problem }),
        None => Ok(()),
    }
}

} // verus!
