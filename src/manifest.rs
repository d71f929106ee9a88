//! Manifests: files that bind aliases to exact tool ids, one per directory
//! plus one global; how they are found, read, searched and edited.

use vstd::prelude::*;

use crate::error::ParseError;
use crate::ident::valid_ident;
use crate::tool_alias::ToolAlias;
use crate::tool_id::{id_text, parse_id_spec, ToolId, ToolIdView};
use crate::text::str_eq;

verus! {

/// The file name of a manifest.
pub const MANIFEST_FILE_NAME: &'static str = "aftman.toml";

/// The bindings of one manifest file, in the order the file lists them,
/// and the path it was read from.
#[derive(Debug)]
pub struct Manifest {
    pub tools: Vec<(ToolAlias, ToolId)>,
    pub path: Option<String>,
}

/// Why a manifest could not be read or edited.
#[derive(Debug)]
pub enum ManifestError {
    /// An entry's alias or id is not valid; `path` names the file.
    InvalidEntry { path: Option<String>, error: ParseError },
    /// The document is not valid TOML.
    Toml(toml_edit::TomlError),
    /// The document's `tools` key holds something other than a table.
    ToolsNotTable,
}

/// The aliases of a manifest's bindings, in order.
pub open spec fn aliases_of(tools: Seq<(ToolAlias, ToolId)>) -> Seq<Seq<char>> {
    tools.map_values(|e: (ToolAlias, ToolId)| e.0@)
}

/// Binding `i` is the first in `tools` for `alias`.
pub open spec fn first_binding(tools: Seq<(ToolAlias, ToolId)>, alias: Seq<char>, i: int) -> bool {
    &&& 0 <= i < tools.len()
    &&& tools[i].0@ == alias
    &&& forall|j: int| 0 <= j < i ==> tools[j].0@ != alias
}

/// No binding of `tools` is for `alias`.
pub open spec fn unbound(tools: Seq<(ToolAlias, ToolId)>, alias: Seq<char>) -> bool {
    forall|j: int| 0 <= j < tools.len() ==> tools[j].0@ != alias
}

/// Entry `(alias, id)` of a manifest table is valid.
pub open spec fn entry_valid(alias: Seq<char>, id: Seq<char>) -> bool {
    valid_ident(alias) && parse_id_spec(id) is Ok
}

impl Manifest {
    /// A manifest from the entries of its `tools` table (alias text, id
    /// text); the first invalid entry is an error that names `path`.
    pub fn from_entries(entries: &Vec<(String, String)>, path: Option<String>) -> (r: Result<
        Manifest,
        ManifestError,
    >)
        ensures
            r is Ok <==> forall|i: int|
                0 <= i < entries@.len() ==> entry_valid(
                    #[trigger] entries@[i].0@,
                    entries@[i].1@,
                ),
            r matches Ok(m) ==> {
                &&& m.path == path
                &&& m.tools@.len() == entries@.len()
                &&& forall|i: int|
                    0 <= i < entries@.len() ==> #[trigger] m.tools@[i].0@ == entries@[i].0@
                        && parse_id_spec(entries@[i].1@) == Ok::<
                        ToolIdView,
                        crate::error::ParseErrorKind,
                    >(m.tools@[i].1@)
            },
            r matches Err(e) ==> e matches ManifestError::InvalidEntry { path: p, .. } && p == path,
    {
        let mut tools: Vec<(ToolAlias, ToolId)> = Vec::new();
        let mut i: usize = 0;
        while i < entries.len()
            invariant
                i <= entries@.len(),
                tools@.len() == i,
                forall|k: int| 0 <= k < i ==> entry_valid(#[trigger] entries@[k].0@, entries@[k].1@),
                forall|k: int|
                    0 <= k < i ==> #[trigger] tools@[k].0@ == entries@[k].0@ && parse_id_spec(
                        entries@[k].1@,
                    ) == Ok::<ToolIdView, crate::error::ParseErrorKind>(tools@[k].1@),
            decreases entries@.len() - i,
        {
            let alias = match ToolAlias::parse(entries[i].0.as_str()) {
                Ok(a) => a,
                Err(error) => return Err(ManifestError::InvalidEntry { path, error }),
            };
            let id = match ToolId::parse(entries[i].1.as_str()) {
                Ok(id) => id,
                Err(error) => return Err(ManifestError::InvalidEntry { path, error }),
            };
            tools.push((alias, id));
            i = i + 1;
        }
        Ok(Manifest { tools, path })
    }

    /// The id bound to `alias`, if the manifest binds it.
    pub fn get<'a>(&'a self, alias: &str) -> (r: Option<&'a ToolId>)
        ensures
            match r {
                Some(id) => exists|i: int| first_binding(self.tools@, alias@, i) && self.tools@[i].1 == *id,
                None => unbound(self.tools@, alias@),
            },
    {
        let mut i: usize = 0;
        while i < self.tools.len()
            invariant
                i <= self.tools@.len(),
                forall|j: int| 0 <= j < i ==> self.tools@[j].0@ != alias@,
            decreases self.tools@.len() - i,
        {
            if str_eq(self.tools[i].0.as_str(), alias) {
                assert(first_binding(self.tools@, alias@, i as int));
                return Some(&self.tools[i].1);
            }
            i = i + 1;
        }
        None
    }
}

/// The directories searched for manifests from `cwd` (as its components,
/// from the root down): `cwd` itself, then each parent, up to the root.
pub open spec fn search_dirs_spec(cwd: Seq<String>) -> Seq<Seq<String>> {
    Seq::new((cwd.len() + 1) as nat, |i: int| cwd.take(cwd.len() - i))
}

pub fn search_dirs(cwd: &Vec<String>) -> (r: Vec<Vec<String>>)
    ensures
        r@.len() == cwd@.len() + 1,
        forall|i: int| 0 <= i < r@.len() ==> #[trigger] r@[i]@ == search_dirs_spec(cwd@)[i],
{
    let n = cwd.len();
    let mut r: Vec<Vec<String>> = Vec::new();
    let mut k: usize = 0;
    loop
        invariant_except_break
            r@.len() == k,
            forall|i: int| 0 <= i < k ==> #[trigger] r@[i]@ == cwd@.take(n - i),
        invariant
            n == cwd@.len(),
            k <= n,
        ensures
            r@.len() == n + 1,
            forall|i: int| 0 <= i < n + 1 ==> #[trigger] r@[i]@ == cwd@.take(n - i),
        decreases n - k,
    {
        let len = n - k;
        let mut dir: Vec<String> = Vec::new();
        let mut j: usize = 0;
        while j < len
            invariant
                len <= n == cwd@.len(),
                j <= len,
                dir@ == cwd@.take(j as int),
            decreases len - j,
        {
            dir.push(cwd[j].clone());
            j = j + 1;
            assert(dir@ =~= cwd@.take(j as int));
        }
        r.push(dir);
        if k == n {
            break;
        }
        k = k + 1;
    }
    r
}

/// The manifests that were found, in order, without the directories that
/// had none.
pub open spec fn present(found: Seq<Option<Manifest>>) -> Seq<Manifest>
    decreases found.len(),
{
    if found.len() == 0 {
        Seq::empty()
    } else {
        (match found[0] {
            Some(m) => seq![m],
            None => Seq::empty(),
        }) + present(found.skip(1))
    }
}

/// The result of discovery: the manifests found in the searched
/// directories, closest first, then the global manifest, if there is one.
pub open spec fn discovered(found: Seq<Option<Manifest>>, global: Option<Manifest>) -> Seq<Manifest> {
    present(found) + match global {
        Some(g) => seq![g],
        None => Seq::empty(),
    }
}

/// Puts discovered manifests in priority order: `found[i]` is what the
/// `i`-th directory of `search_dirs` held, `global` the global manifest.
pub fn collect_discovered(found: Vec<Option<Manifest>>, global: Option<Manifest>) -> (r: Vec<
    Manifest,
>)
    ensures
        r@ == discovered(found@, global),
{
    let ghost all = found@;
    let mut rest = found;
    let mut r: Vec<Manifest> = Vec::new();
    while rest.len() > 0
        invariant
            r@ + present(rest@) == present(all),
        decreases rest@.len(),
    {
        let ghost before = rest@;
        let m = rest.remove(0);
        assert(rest@ =~= before.skip(1));
        match m {
            Some(m) => {
                r.push(m);
            },
            None => {},
        }
        assert(r@ + present(rest@) =~= present(all));
    }
    match global {
        Some(g) => r.push(g),
        None => {},
    }
    assert(r@ =~= discovered(all, global));
    r
}

proof fn lemma_present_all(found: Seq<Option<Manifest>>)
    requires
        forall|i: int| 0 <= i < found.len() ==> (#[trigger] found[i]) is Some,
    ensures
        present(found).len() == found.len(),
        forall|i: int| 0 <= i < found.len() ==> Some(#[trigger] present(found)[i]) == found[i],
    decreases found.len(),
{
    if found.len() > 0 {
        assert forall|i: int| 0 <= i < found.skip(1).len() implies (#[trigger] found.skip(1)[i]) is Some by {
            assert(found.skip(1)[i] == found[i + 1]);
        }
        lemma_present_all(found.skip(1));
        assert forall|i: int| 0 <= i < found.len() implies Some(#[trigger] present(found)[i]) == found[i] by {
            if i > 0 {
                assert(present(found)[i] == present(found.skip(1))[i - 1]);
            }
        }
    }
}

/// For a chain of nested directories that each hold a manifest, discovery
/// lists them from the innermost to the outermost, each from a directory
/// strictly outside the one before, with the global manifest last.
pub proof fn lemma_discovery_order(cwd: Seq<String>, found: Seq<Option<Manifest>>, global: Manifest)
    requires
        found.len() == search_dirs_spec(cwd).len(),
        forall|i: int| 0 <= i < found.len() ==> (#[trigger] found[i]) is Some,
    ensures
        discovered(found, Some(global)).len() == found.len() + 1,
        forall|i: int|
            0 <= i < found.len() ==> Some(#[trigger] discovered(found, Some(global))[i]) == found[i],
        forall|i: int|
            0 < i < found.len() ==> #[trigger] search_dirs_spec(cwd)[i].len() + 1 == search_dirs_spec(
                cwd,
            )[i - 1].len() && search_dirs_spec(cwd)[i] == search_dirs_spec(cwd)[i - 1].take(
                search_dirs_spec(cwd)[i].len() as int,
            ),
        discovered(found, Some(global)).last() == global,
{
    lemma_present_all(found);
    assert forall|i: int|
        0 < i < found.len() implies #[trigger] search_dirs_spec(cwd)[i].len() + 1 == search_dirs_spec(
        cwd,
    )[i - 1].len() && search_dirs_spec(cwd)[i] == search_dirs_spec(cwd)[i - 1].take(
        search_dirs_spec(cwd)[i].len() as int,
    ) by {
        assert(search_dirs_spec(cwd)[i] =~= search_dirs_spec(cwd)[i - 1].take(
            search_dirs_spec(cwd)[i].len() as int,
        ));
    }
}

/// The manifest that an alias resolves to: the first, in priority order,
/// that binds it, with the bound id.
pub fn find_tool<'a>(manifests: &'a Vec<Manifest>, alias: &str) -> (r: Option<(usize, &'a ToolId)>)
    ensures
        match r {
            Some((k, id)) => {
                &&& k < manifests@.len()
                &&& exists|i: int| first_binding(manifests@[k as int].tools@, alias@, i) && manifests@[k as int].tools@[i].1 == *id
                &&& forall|j: int| 0 <= j < k ==> unbound(#[trigger] manifests@[j].tools@, alias@)
            },
            None => forall|j: int| 0 <= j < manifests@.len() ==> unbound(#[trigger] manifests@[j].tools@, alias@),
        },
{
    let mut k: usize = 0;
    while k < manifests.len()
        invariant
            k <= manifests@.len(),
            forall|j: int| 0 <= j < k ==> unbound(#[trigger] manifests@[j].tools@, alias@),
        decreases manifests@.len() - k,
    {
        match manifests[k].get(alias) {
            Some(id) => return Some((k, id)),
            None => {},
        }
        k = k + 1;
    }
    None
}

/// The directory whose manifest a local edit goes to: the first of the
/// searched directories, closest first, that holds a manifest file (`None`:
/// none does, and the global manifest is edited).
pub fn nearest_manifest(exists: &Vec<bool>) -> (r: Option<usize>)
    ensures
        match r {
            Some(i) => i < exists@.len() && exists@[i as int] && forall|j: int| 0 <= j < i ==> !exists@[j],
            None => forall|j: int| 0 <= j < exists@.len() ==> !exists@[j],
        },
{
    let mut i: usize = 0;
    while i < exists.len()
        invariant
            i <= exists@.len(),
            forall|j: int| 0 <= j < i ==> !exists@[j],
        decreases exists@.len() - i,
    {
        if exists[i] {
            return Some(i);
        }
        i = i + 1;
    }
    None
}

#[verifier::external_type_specification]
#[verifier::external_body]
pub struct ExTomlError(toml_edit::TomlError);

/// The text of the TOML document `content` with key `alias` of its `tools`
/// table set to the string `value`, everything else kept as written; `None`
/// where `tools` holds something other than a table.
pub uninterp spec fn toml_with_tool(content: Seq<char>, alias: Seq<char>, value: Seq<char>) -> Option<
    Seq<char>,
>;

/// Relies on `toml_edit::Document` (parse, `entry`, `as_table_like_mut`,
/// `insert`, `to_string`): a format-preserving edit of one key.
#[verifier::external_body]
fn toml_set_tool(content: &str, alias: &str, value: &str) -> (r: Result<
    Option<String>,
    toml_edit::TomlError,
>)
    ensures
        r matches Ok(Some(s)) ==> toml_with_tool(content@, alias@, value@) == Some(s@),
        r matches Ok(None) ==> toml_with_tool(content@, alias@, value@) is None,
{
    let mut doc: toml_edit::Document = content.parse()?;
    let tools = doc.as_table_mut().entry("tools").or_insert(toml_edit::table());
    match tools.as_table_like_mut() {
        Some(t) => {
            t.insert(alias, toml_edit::value(value));
            Ok(Some(doc.to_string()))
        },
        None => Ok(None),
    }
}

/// The manifest text `content` with `alias` bound to `id` in its `tools`
/// table; comments and other keys are kept as written.
pub fn edit_manifest_text(content: &str, alias: &ToolAlias, id: &ToolId) -> (r: Result<
    String,
    ManifestError,
>)
    ensures
        r matches Ok(s) ==> toml_with_tool(content@, alias@, id_text(id@)) == Some(s@),
        r matches Err(ManifestError::ToolsNotTable) ==> toml_with_tool(
            content@,
            alias@,
            id_text(id@),
        ) is None,
        r matches Err(e) ==> !(e is InvalidEntry),
{
    let value = id.to_string();
    match toml_set_tool(content, alias.as_str(), value.as_str()) {
        Ok(Some(s)) => Ok(s),
        Ok(None) => Err(ManifestError::ToolsNotTable),
        Err(e) => Err(ManifestError::Toml(e)),
    }
}

} // verus!
