//! What this executable is, decided once from the name it was invoked by,
//! and how a managed tool's run ends.

use vstd::prelude::*;

use crate::archive::{ends_with, str_ends_with};
use crate::manifest::Manifest;
use crate::text::str_eq;

verus! {

/// The name the manager itself is installed under.
pub const MANAGER_NAME: &'static str = "aftman";

/// The role of this process.
#[derive(Debug, PartialEq, Eq)]
pub enum Role {
    /// Invoked as the manager: run the management commands.
    Manager,
    /// Invoked through a shim: act as the tool bound to this alias.
    Proxy(String),
}

/// The invoked file name without the platform's executable suffix.
pub open spec fn exe_stem(file_name: Seq<char>, suffix: Seq<char>) -> Seq<char> {
    if ends_with(file_name, suffix) {
        file_name.take(file_name.len() - suffix.len())
    } else {
        file_name
    }
}

pub fn strip_exe_suffix<'a>(file_name: &'a str, suffix: &str) -> (r: &'a str)
    ensures
        r@ == exe_stem(file_name@, suffix@),
{
    if str_ends_with(file_name, suffix) {
        let n = file_name.unicode_len();
        let m = suffix.unicode_len();
        let r = file_name.substring_char(0, n - m);
        assert(r@ =~= file_name@.take(n - m));
        r
    } else {
        file_name
    }
}

impl Role {
    /// The role for an invocation through the file `file_name`: the
    /// manager under its own name, otherwise a proxy for the alias that the
    /// name (without the executable suffix) spells.
    pub fn decide(file_name: &str, suffix: &str) -> (r: Role)
        ensures
            exe_stem(file_name@, suffix@) == MANAGER_NAME@ ==> r == Role::Manager,
            exe_stem(file_name@, suffix@) != MANAGER_NAME@ ==> (r matches Role::Proxy(a) && a@
                == exe_stem(file_name@, suffix@)),
    {
        let stem = strip_exe_suffix(file_name, suffix);
        if str_eq(stem, MANAGER_NAME) {
            Role::Manager
        } else {
            Role::Proxy(String::from_str(stem))
        }
    }
}

/// How a managed tool's run ended.
#[derive(Debug, Clone, Copy, PartialEq, Eq, Structural)]
pub enum RunEnd {
    /// The tool exited, with its exit code where the platform reports one.
    Exited(Option<i32>),
    /// A terminal signal with this number arrived first; the tool was
    /// killed.
    Signalled(i32),
}

/// The exit code this process ends with: the tool's own code (1 where
/// there is none), or, after a relayed signal, 128 plus its number.
pub open spec fn exit_code_spec(end: RunEnd) -> int {
    match end {
        RunEnd::Exited(Some(c)) => c as int,
        RunEnd::Exited(None) => 1,
        RunEnd::Signalled(s) => 128 + s,
    }
}

pub fn exit_code(end: RunEnd) -> (r: i32)
    requires
        end matches RunEnd::Signalled(s) ==> 0 <= s <= 64,
    ensures
        r == exit_code_spec(end),
{
    match end {
        RunEnd::Exited(Some(c)) => c,
        RunEnd::Exited(None) => 1,
        RunEnd::Signalled(s) => 128 + s,
    }
}

/// The message for a shim whose alias no manifest binds: it names the
/// alias and lists, one per line, every manifest file that was searched.
pub fn unbound_alias_message(alias: &str, manifests: &Vec<Manifest>) -> (r: String)
    ensures
        r@ == unbound_alias_text(alias@, manifest_paths(manifests@)),
{
    let mut r = String::from_str("Tried to run an Aftman-managed version of ");
    r.append(alias);
    r.append(", but no aftman.toml files list this tool.\nTo run ");
    r.append(alias);
    r.append(" from this directory, add it to one of these files:");
    let mut i: usize = 0;
    while i < manifests.len()
        invariant
            i <= manifests@.len(),
            r@ == unbound_alias_text(alias@, manifest_paths(manifests@.take(i as int))),
        decreases manifests@.len() - i,
    {
        proof {
            assert(manifests@.take(i + 1).drop_last() =~= manifests@.take(i as int));
        }
        match &manifests[i].path {
            Some(p) => {
                r.append("\n- ");
                r.append(p.as_str());
                proof {
                    reveal_strlit("\n- ");
                }
            },
            None => {},
        }
        i = i + 1;
    }
    assert(manifests@.take(manifests@.len() as int) =~= manifests@);
    r
}

/// The lines `\n- path` for each manifest read from a file, in order.
pub open spec fn manifest_paths(manifests: Seq<Manifest>) -> Seq<char>
    decreases manifests.len(),
{
    if manifests.len() == 0 {
        Seq::empty()
    } else {
        manifest_paths(manifests.drop_last()) + match manifests.last().path {
            Some(p) => "\n- "@ + p@,
            None => Seq::empty(),
        }
    }
}

pub open spec fn unbound_alias_text(alias: Seq<char>, paths: Seq<char>) -> Seq<char> {
    "Tried to run an Aftman-managed version of "@ + alias
        + ", but no aftman.toml files list this tool.\nTo run "@ + alias
        + " from this directory, add it to one of these files:"@ + paths
}

} // verus!
