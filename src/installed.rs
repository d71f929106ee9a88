//! The cache of installed tool ids.

use vstd::prelude::*;

use crate::seqs::{lemma_distinct_len, lemma_insert_set};
use crate::text::{lines, split_lines};
use crate::text::str_eq;
use crate::tool_id::{id_cmp, id_text, parse_id_spec, ToolId, ToolIdView};
use crate::tool_name::name_text;
use crate::version::version_text;

verus! {

/// The ids in `s` are in strictly increasing order (by name, then by
/// version), each once.
pub open spec fn ids_sorted(s: Seq<ToolIdView>) -> bool {
    &&& forall|i: int|
        0 <= i < s.len() - 1 ==> #[trigger] id_cmp(s[i], s[i + 1]) == std::cmp::Ordering::Less
    &&& forall|i: int, j: int| 0 <= i < j < s.len() ==> s[i] != s[j]
}

/// The text of a cache file listing `s`: one canonical id per line, each
/// line ended by `\n`.
pub open spec fn render_ids(s: Seq<ToolIdView>) -> Seq<char>
    decreases s.len(),
{
    if s.len() == 0 {
        Seq::empty()
    } else {
        render_ids(s.drop_last()) + id_text(s.last()) + seq!['\n']
    }
}

/// The ids that some line of `text` reads as; lines that are not ids are
/// passed over.
pub open spec fn ids_in_text(text: Seq<char>) -> Set<ToolIdView> {
    Set::new(
        |n: ToolIdView|
            exists|i: int|
                0 <= i < lines(text).len() && parse_id_spec(lines(text)[i]) == Ok::<
                    ToolIdView,
                    crate::error::ParseErrorKind,
                >(n),
    )
}

/// Inserting a new id `n` at `k`, between an id below it and an id above
/// it, keeps a sorted sequence sorted.
proof fn lemma_insert_sorted_ids(before: Seq<ToolIdView>, k: int, n: ToolIdView)
    requires
        ids_sorted(before),
        0 <= k <= before.len(),
        forall|i: int| 0 <= i < before.len() ==> #[trigger] before[i] != n,
        k > 0 ==> id_cmp(before[k - 1], n) == std::cmp::Ordering::Less,
        k < before.len() ==> id_cmp(n, before[k]) == std::cmp::Ordering::Less,
    ensures
        ids_sorted(before.insert(k, n)),
{
    before.insert_ensures(k, n);
    let after = before.insert(k, n);
    assert forall|i: int| 0 <= i < after.len() - 1 implies #[trigger] id_cmp(
        after[i],
        after[i + 1],
    ) == std::cmp::Ordering::Less by {
        if i + 1 < k {
            assert(after[i] == before[i]);
            assert(after[i + 1] == before[i + 1]);
        } else if i == k {
            assert(after[i + 1] == before[i]);
        } else if i > k {
            assert(after[i] == before[i - 1]);
            assert(after[i + 1] == before[i]);
        }
    }
    assert forall|i: int, j: int| 0 <= i < j < after.len() implies after[i] != after[j] by {
        if j < k {
            assert(after[i] == before[i]);
            assert(after[j] == before[j]);
        } else if j == k {
            assert(after[i] == before[i]);
        } else if i == k {
            assert(after[j] == before[j - 1]);
        } else if i < k {
            assert(after[i] == before[i]);
            assert(after[j] == before[j - 1]);
        } else {
            assert(after[i] == before[i - 1]);
            assert(after[j] == before[j - 1]);
        }
    }
}

/// The views of a sequence of ids.
pub open spec fn id_views_of(s: Seq<ToolId>) -> Seq<ToolIdView> {
    s.map_values(|t: ToolId| t@)
}

/// The tool ids that are installed.
#[derive(Debug)]
pub struct InstalledToolsCache {
    tools: Vec<ToolId>,
}

impl InstalledToolsCache {
    /// The installed ids, in order.
    pub closed spec fn ids(&self) -> Seq<ToolIdView> {
        id_views_of(self.tools@)
    }

    /// The set of installed ids.
    pub open spec fn contents(&self) -> Set<ToolIdView> {
        self.ids().to_set()
    }

    #[verifier::type_invariant]
    pub open spec fn inv(self) -> bool {
        ids_sorted(self.ids())
    }

    /// An empty cache.
    pub fn new() -> (r: InstalledToolsCache)
        ensures
            r.contents() == Set::<ToolIdView>::empty(),
    {
        let tools: Vec<ToolId> = Vec::new();
        assert(id_views_of(tools@) =~= Seq::<ToolIdView>::empty());
        let r = InstalledToolsCache { tools };
        assert(r.contents() =~= Set::<ToolIdView>::empty());
        r
    }

    pub fn len(&self) -> (r: usize)
        ensures
            r == self.contents().len(),
    {
        proof {
            use_type_invariant(self);
            lemma_distinct_len(self.ids());
        }
        self.tools.len()
    }

    pub fn is_empty(&self) -> (r: bool)
        ensures
            r == (self.contents() == Set::<ToolIdView>::empty()),
    {
        proof {
            if self.tools@.len() > 0 {
                assert(self.contents().contains(self.ids()[0]));
            } else {
                assert(self.contents() =~= Set::<ToolIdView>::empty());
            }
        }
        self.tools.len() == 0
    }

    /// Whether `id` is installed.
    pub fn contains(&self, id: &ToolId) -> (r: bool)
        ensures
            r == self.contents().contains(id@),
    {
        let mut i: usize = 0;
        while i < self.tools.len()
            invariant
                i <= self.tools@.len(),
                forall|k: int| 0 <= k < i ==> self.ids()[k] != id@,
            decreases self.tools@.len() - i,
        {
            if matches!(self.tools[i].compare(id), std::cmp::Ordering::Equal) {
                assert(self.ids()[i as int] == id@);
                return true;
            }
            i = i + 1;
        }
        false
    }

    /// Records `id` as installed; true when it was not installed before.
    pub fn add(&mut self, id: ToolId) -> (r: bool)
        ensures
            r == !old(self).contents().contains(id@),
            final(self).contents() == old(self).contents().insert(id@),
    {
        if self.contains(&id) {
            assert(self.contents().insert(id@) =~= self.contents());
            return false;
        }
        proof {
            use_type_invariant(&*self);
        }
        let ghost before = self.ids();
        assert forall|i: int| 0 <= i < before.len() implies #[trigger] before[i] != id@ by {
            if before[i] == id@ {
                assert(before.contains(id@));
            }
        }
        let mut k: usize = 0;
        while k < self.tools.len()
            invariant
                k <= self.tools@.len(),
                self.ids() == before,
                forall|i: int| 0 <= i < before.len() ==> #[trigger] before[i] != id@,
                forall|m: int| 0 <= m < k ==> id_cmp(#[trigger] before[m], id@)
                    == std::cmp::Ordering::Less,
            ensures
                k <= before.len(),
                k < before.len() ==> id_cmp(id@, before[k as int]) == std::cmp::Ordering::Less,
            decreases self.tools@.len() - k,
        {
            let c = id.compare(&self.tools[k]);
            if matches!(c, std::cmp::Ordering::Less) {
                break;
            }
            assert(before[k as int] != id@);
            k = k + 1;
        }
        proof {
            before.insert_ensures(k as int, id@);
        }
        let ghost n = id@;
        let mut tools: Vec<ToolId> = Vec::new();
        let mut m: usize = 0;
        while m < k
            invariant
                m <= k <= self.tools@.len(),
                self.ids() == before,
                id_views_of(tools@) == before.take(m as int),
            decreases k - m,
        {
            let t = self.tools[m].clone();
            assert(t@ == before[m as int]);
            let ghost prev = tools@;
            tools.push(t);
            assert(id_views_of(tools@) =~= id_views_of(prev).push(t@));
            m = m + 1;
            assert(id_views_of(tools@) =~= before.take(m as int));
        }
        let ghost prev = tools@;
        tools.push(id);
        assert(id_views_of(tools@) =~= id_views_of(prev).push(n));
        assert(id_views_of(tools@) =~= before.take(k as int).push(n));
        while m < self.tools.len()
            invariant
                k <= m <= self.tools@.len(),
                self.ids() == before,
                id_views_of(tools@) == before.take(k as int).push(n) + before.subrange(
                    k as int,
                    m as int,
                ),
            decreases self.tools@.len() - m,
        {
            let t = self.tools[m].clone();
            assert(t@ == before[m as int]);
            let ghost prev = tools@;
            tools.push(t);
            assert(id_views_of(tools@) =~= id_views_of(prev).push(t@));
            m = m + 1;
            assert(id_views_of(tools@) =~= before.take(k as int).push(n)
                + before.subrange(k as int, m as int));
        }
        assert(id_views_of(tools@) =~= before.insert(k as int, n));
        proof {
            lemma_insert_sorted_ids(before, k as int, n);
        }
        self.tools = tools;
        proof {
            lemma_insert_set(before, k as int, n);
        }
        true
    }

    /// Reads a cache file: every line that is a tool id is installed.
    pub fn read(text: &str) -> (r: InstalledToolsCache)
        ensures
            r.contents() == ids_in_text(text@),
    {
        let all = split_lines(text);
        let mut cache = InstalledToolsCache::new();
        let mut i: usize = 0;
        while i < all.len()
            invariant
                i <= all@.len(),
                all@.map_values(|l: &str| l@) == lines(text@),
                cache.contents() == Set::new(
                    |n: ToolIdView|
                        exists|j: int|
                            0 <= j < i && parse_id_spec(lines(text@)[j]) == Ok::<
                                ToolIdView,
                                crate::error::ParseErrorKind,
                            >(n),
                ),
            decreases all@.len() - i,
        {
            let ghost before = cache.contents();
            assert(lines(text@)[i as int] == all@[i as int]@);
            match crate::tool_id::parse_id_parts(all[i]) {
                Ok(id) => {
                    cache.add(id);
                },
                Err(_) => {},
            }
            i = i + 1;
            assert(cache.contents() =~= Set::new(
                |n: ToolIdView|
                    exists|j: int|
                        0 <= j < i && parse_id_spec(lines(text@)[j]) == Ok::<
                            ToolIdView,
                            crate::error::ParseErrorKind,
                        >(n),
            ));
        }
        cache
    }

    /// The text of the cache file: each installed id on its own line, in
    /// order.
    pub fn render(&self) -> (r: String)
        ensures
            r@ == render_ids(self.ids()),
    {
        let mut r = String::new();
        let mut i: usize = 0;
        while i < self.tools.len()
            invariant
                i <= self.tools@.len(),
                r@ == render_ids(self.ids().take(i as int)),
            decreases self.tools@.len() - i,
        {
            let t = self.tools[i].to_string();
            r.append(t.as_str());
            r.append("\n");
            proof {
                reveal_strlit("\n");
                assert(self.ids().take(i + 1).drop_last() =~= self.ids().take(i as int));
            }
            i = i + 1;
        }
        assert(self.ids().take(self.tools@.len() as int) =~= self.ids());
        r
    }
}

/// The texts of a group's versions.
pub open spec fn version_texts(v: Seq<String>) -> Seq<Seq<char>> {
    v.map_values(|s: String| s@)
}

/// The view of a listing: each tool's name and its versions' texts.
pub open spec fn listing_view(groups: Seq<(String, Vec<String>)>) -> Seq<(Seq<char>, Seq<Seq<char>>)> {
    groups.map_values(|g: (String, Vec<String>)| (g.0@, version_texts(g.1@)))
}

/// `ids` grouped by tool name: consecutive ids of one tool form one group,
/// which lists their versions from the last to the first.
pub open spec fn group_ids(ids: Seq<ToolIdView>) -> Seq<(Seq<char>, Seq<Seq<char>>)>
    decreases ids.len(),
{
    if ids.len() == 0 {
        Seq::empty()
    } else {
        let g = group_ids(ids.drop_last());
        let n = crate::tool_name::name_text(ids.last().name);
        let v = version_text(ids.last().version);
        if g.len() > 0 && g.last().0 == n {
            g.update(g.len() - 1, (n, seq![v] + g.last().1))
        } else {
            g.push((n, seq![v]))
        }
    }
}

impl InstalledToolsCache {
    /// The installed tools grouped by tool: each run of ids of one tool in
    /// the cache's order becomes one group, its versions listed last first
    /// (the cache keeps a tool's versions in ascending order).
    pub fn listing(&self) -> (r: Vec<(String, Vec<String>)>)
        ensures
            listing_view(r@) == group_ids(self.ids()),
    {
        let mut r: Vec<(String, Vec<String>)> = Vec::new();
        let mut i: usize = 0;
        while i < self.tools.len()
            invariant
                i <= self.tools@.len(),
                listing_view(r@) == group_ids(self.ids().take(i as int)),
            decreases self.tools@.len() - i,
        {
            proof {
                assert(self.ids().take(i + 1).drop_last() =~= self.ids().take(i as int));
            }
            let id = &self.tools[i];
            let n = id.name().to_string();
            let v = id.version().to_string();
            let ghost prev = r@;
            let same = r.len() > 0 && str_eq(r[r.len() - 1].0.as_str(), n.as_str());
            if same {
                let (name, versions) = r.pop().unwrap();
                let mut vs: Vec<String> = Vec::new();
                vs.push(v);
                let mut k: usize = 0;
                while k < versions.len()
                    invariant
                        k <= versions@.len(),
                        version_texts(vs@) == seq![version_text(id@.version)] + version_texts(
                            versions@.take(k as int),
                        ),
                    decreases versions@.len() - k,
                {
                    let ghost before = vs@;
                    vs.push(versions[k].clone());
                    assert(version_texts(vs@) =~= version_texts(before).push(versions@[k as int]@));
                    k = k + 1;
                    assert(version_texts(vs@) =~= seq![version_text(id@.version)] + version_texts(
                        versions@.take(k as int),
                    ));
                }
                assert(versions@.take(versions@.len() as int) =~= versions@);
                r.push((name, vs));
                assert(listing_view(r@) =~= listing_view(prev).update(
                    prev.len() - 1,
                    (name_text(id@.name), seq![version_text(id@.version)] + listing_view(prev).last().1),
                ));
            } else {
                let mut vs: Vec<String> = Vec::new();
                vs.push(v);
                assert(version_texts(vs@) =~= seq![version_text(id@.version)]);
                r.push((n, vs));
                assert(listing_view(r@) =~= listing_view(prev).push(
                    (name_text(id@.name), seq![version_text(id@.version)]),
                ));
            }
            i = i + 1;
        }
        assert(self.ids().take(self.tools@.len() as int) =~= self.ids());
        r
    }
}

} // verus!
