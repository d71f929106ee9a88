//! Where installed tools and their shims live, and the names they have.

use vstd::prelude::*;

use crate::tool_alias::ToolAlias;
use crate::tool_id::ToolId;
use crate::tool_spec::ToolSpec;
use crate::version::version_text;

verus! {

/// The file name of a tool's executable on this platform: its name and the
/// platform's executable suffix.
pub fn executable_name(id: &ToolId, exe_suffix: &str) -> (r: String)
    ensures
        r@ == id@.name.name + exe_suffix@,
{
    let mut r = String::from_str(id.name().name());
    r.append(exe_suffix);
    r
}

/// The path of an installed tool's executable below the storage root, one
/// component each: scope, name, version, executable file name.
pub fn exe_path_parts(id: &ToolId, exe_suffix: &str) -> (r: Vec<String>)
    ensures
        r@.len() == 4,
        r@[0]@ == id@.name.scope,
        r@[1]@ == id@.name.name,
        r@[2]@ == version_text(id@.version),
        r@[3]@ == id@.name.name + exe_suffix@,
{
    let mut r: Vec<String> = Vec::new();
    r.push(String::from_str(id.name().scope()));
    r.push(String::from_str(id.name().name()));
    r.push(id.version().to_string());
    r.push(executable_name(id, exe_suffix));
    r
}

/// The file name of the shim that runs `alias`.
pub fn link_name(alias: &ToolAlias, exe_suffix: &str) -> (r: String)
    ensures
        r@ == alias@ + exe_suffix@,
{
    let mut r = alias.to_string();
    r.append(exe_suffix);
    r
}

/// The alias a tool gets when none is given: its bare name.
pub fn default_alias(spec: &ToolSpec) -> (r: ToolAlias)
    ensures
        r@ == spec@.name.name,
{
    let name = spec.name();
    proof {
        use_type_invariant(name);
    }
    ToolAlias::from_valid(name.name())
}

} // verus!
