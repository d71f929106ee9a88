//! `ToolName`: a tool's scope and name, written `scope/name`.

use vstd::prelude::*;

use crate::error::{ParseError, ParseErrorKind, Subject};
use crate::ident::{check_ident, ident_problem, valid_ident, IdentError};
use crate::text::{compare_text, find_char, lemma_split_first_at, lemma_split_joined, lemma_text_cmp, split_first, text_cmp};

verus! {

/// The name of a published tool: a scope (its publisher) and a name, both
/// valid identifiers.
#[derive(Debug, PartialEq, Eq)]
pub struct ToolName {
    scope: String,
    name: String,
}

/// What `ToolName` stands for: its scope and its name.
pub struct ToolNameView {
    pub scope: Seq<char>,
    pub name: Seq<char>,
}

impl View for ToolName {
    type V = ToolNameView;

    closed spec fn view(&self) -> ToolNameView {
        ToolNameView { scope: self.scope@, name: self.name@ }
    }
}

/// Both parts are valid identifiers.
pub open spec fn name_wf(n: ToolNameView) -> bool {
    valid_ident(n.scope) && valid_ident(n.name)
}

/// The canonical text `scope/name`.
pub open spec fn name_text(n: ToolNameView) -> Seq<char> {
    n.scope + seq!['/'] + n.name
}

/// How `text` reads as a tool name: split at the first `/`, then check the
/// scope, then the name.
pub open spec fn parse_name_spec(text: Seq<char>) -> Result<ToolNameView, ParseErrorKind> {
    match split_first(text, '/') {
        None => Err(ParseErrorKind::NameMissing),
        Some((scope, name)) => match ident_problem(scope) {
            Some(p) => Err(ParseErrorKind::InvalidScope(p)),
            None => match ident_problem(name) {
                Some(p) => Err(ParseErrorKind::InvalidName(p)),
                None => Ok(ToolNameView { scope, name }),
            },
        },
    }
}

/// Reading the canonical text of a valid tool name gives that name back.
pub proof fn lemma_name_round_trip(n: ToolNameView)
    requires
        name_wf(n),
    ensures
        parse_name_spec(name_text(n)) == Ok::<ToolNameView, ParseErrorKind>(n),
{
    lemma_split_joined(n.scope, '/', n.name);
}

/// Valid names with the same canonical text are the same name.
pub proof fn lemma_name_text_injective(a: ToolNameView, b: ToolNameView)
    requires
        name_wf(a),
        name_wf(b),
        name_text(a) == name_text(b),
    ensures
        a == b,
{
    lemma_name_round_trip(a);
    lemma_name_round_trip(b);
}

/// The order of two names: that of their canonical texts.
pub closed spec fn name_cmp(a: ToolNameView, b: ToolNameView) -> std::cmp::Ordering {
    text_cmp(name_text(a), name_text(b))
}

impl ToolName {
    /// Every name is made of two valid identifiers.
    #[verifier::type_invariant]
    pub open spec fn inv(self) -> bool {
        name_wf(self@)
    }

    /// The order of the two names by their canonical texts.
    pub fn compare(&self, other: &ToolName) -> (r: std::cmp::Ordering)
        ensures
            r == name_cmp(self@, other@),
            r == text_cmp(name_text(self@), name_text(other@)),
            name_cmp(other@, self@) == crate::version::flip(r),
            r == std::cmp::Ordering::Equal <==> self@ == other@,
    {
        proof {
            use_type_invariant(self);
            use_type_invariant(other);
            lemma_text_cmp(name_text(self@), name_text(other@));
            if name_text(self@) == name_text(other@) {
                lemma_name_text_injective(self@, other@);
            }
        }
        let a = self.to_string();
        let b = other.to_string();
        compare_text(a.as_str(), b.as_str())
    }

    /// Builds a name from a scope and a name, each checked against the
    /// identifier rules (the scope first).
    pub fn new(scope: &str, name: &str) -> (r: Result<ToolName, IdentError>)
        ensures
            r is Ok <==> valid_ident(scope@) && valid_ident(name@),
            r matches Ok(n) ==> n@ == (ToolNameView { scope: scope@, name: name@ }),
            r matches Err(e) ==> if !valid_ident(scope@) {
                e.subject@ == "Scope"@ && Some(e.problem) == ident_problem(scope@)
            } else {
                e.subject@ == "Name"@ && Some(e.problem) == ident_problem(name@)
            },
    {
        check_ident("Scope", scope)?;
        check_ident("Name", name)?;
        Ok(ToolName { scope: scope.to_owned(), name: name.to_owned() })
    }

    pub fn scope(&self) -> (r: &str)
        ensures
            r@ == self@.scope,
    {
        self.scope.as_str()
    }

    pub fn name(&self) -> (r: &str)
        ensures
            r@ == self@.name,
    {
        self.name.as_str()
    }

    /// Whether the two names have the same scope and the same name.
    pub fn same_as(&self, other: &ToolName) -> (r: bool)
        ensures
            r == (self@ == other@),
    {
        self.scope == other.scope && self.name == other.name
    }

    /// The canonical text `scope/name`.
    pub fn to_string(&self) -> (r: String)
        ensures
            r@ == name_text(self@),
    {
        let mut r = self.scope.clone();
        r.append("/");
        r.append(self.name.as_str());
        proof {
            reveal_strlit("/");
        }
        r
    }

    /// Reads `scope/name`: the text up to the first `/` is the scope, the
    /// rest the name.
    pub fn parse(value: &str) -> (r: Result<ToolName, ParseError>)
        ensures
            r matches Ok(n) ==> parse_name_spec(value@) == Ok::<ToolNameView, ParseErrorKind>(n@),
            r matches Err(e) ==> parse_name_spec(value@) == Err::<ToolNameView, ParseErrorKind>(e.kind) && e.subject
                == Subject::ToolName && e.input@ == value@,
    {
        match parse_name_parts(value) {
            Ok(n) => Ok(n),
            Err(kind) => Err(ParseError { subject: Subject::ToolName, input: value.to_owned(), kind }),
        }
    }
}

/// The tool name that `value` reads as, or the rule it breaks.
pub fn parse_name_parts(value: &str) -> (r: Result<ToolName, ParseErrorKind>)
    ensures
        r matches Ok(n) ==> parse_name_spec(value@) == Ok::<ToolNameView, ParseErrorKind>(n@),
        r matches Err(k) ==> parse_name_spec(value@) == Err::<ToolNameView, ParseErrorKind>(k),
{
    let n = value.unicode_len();
    match find_char(value, '/') {
        None => Err(ParseErrorKind::NameMissing),
        Some(i) => {
            proof {
                lemma_split_first_at(value@, '/', i as int);
            }
            let scope = value.substring_char(0, i);
            let name = value.substring_char(i + 1, n);
            assert(scope@ =~= value@.take(i as int));
            assert(name@ =~= value@.skip(i + 1));
            if let Err(e) = check_ident("Scope", scope) {
                return Err(ParseErrorKind::InvalidScope(e.problem));
            }
            if let Err(e) = check_ident("Name", name) {
                return Err(ParseErrorKind::InvalidName(e.problem));
            }
            Ok(ToolName { scope: scope.to_owned(), name: name.to_owned() })
        },
    }
}

impl Clone for ToolName {
    fn clone(&self) -> (r: Self)
        ensures
            r == *self,
    {
        proof {
            use_type_invariant(self);
        }
        ToolName { scope: self.scope.clone(), name: self.name.clone() }
    }
}

impl std::str::FromStr for ToolName {
    type Err = ParseError;

    fn from_str(value: &str) -> Result<ToolName, ParseError> {
        ToolName::parse(value)
    }
}

} // verus!
