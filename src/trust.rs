//! The trust cache (the set of tool names the user has agreed to install)
//! and the decision taken before installing a tool.

use vstd::prelude::*;

use crate::text::{lines, split_lines};
use crate::tool_name::{name_cmp, name_text, parse_name_spec, ToolName, ToolNameView};
use crate::seqs::{lemma_distinct_len, lemma_insert_set};


verus! {

#[derive(Debug, Clone, Copy, PartialEq, Eq, Structural)]
pub enum TrustMode {
    /// Ask before installing a tool never trusted before.
    Check,
    /// Install without asking (bulk installs, for instance on CI).
    NoCheck,
}

/// The names in `s` are in strictly increasing order of their texts, each
/// once.
pub open spec fn names_sorted(s: Seq<ToolNameView>) -> bool {
    &&& forall|i: int|
        0 <= i < s.len() - 1 ==> #[trigger] name_cmp(s[i], s[i + 1]) == std::cmp::Ordering::Less
    &&& forall|i: int, j: int| 0 <= i < j < s.len() ==> s[i] != s[j]
}

/// The text of a cache file listing `s`: one canonical name per line, each
/// line ended by `\n`.
pub open spec fn render_names(s: Seq<ToolNameView>) -> Seq<char>
    decreases s.len(),
{
    if s.len() == 0 {
        Seq::empty()
    } else {
        render_names(s.drop_last()) + name_text(s.last()) + seq!['\n']
    }
}

/// The names that some line of `text` reads as; lines that are not names
/// are passed over.
pub open spec fn names_in_text(text: Seq<char>) -> Set<ToolNameView> {
    Set::new(
        |n: ToolNameView|
            exists|i: int|
                0 <= i < lines(text).len() && parse_name_spec(lines(text)[i]) == Ok::<
                    ToolNameView,
                    crate::error::ParseErrorKind,
                >(n),
    )
}

/// Inserting a new name `n` at `k`, between a name below it and a name
/// above it, keeps a sorted sequence sorted.
proof fn lemma_insert_sorted(before: Seq<ToolNameView>, k: int, n: ToolNameView)
    requires
        names_sorted(before),
        0 <= k <= before.len(),
        forall|i: int| 0 <= i < before.len() ==> #[trigger] before[i] != n,
        k > 0 ==> name_cmp(before[k - 1], n) == std::cmp::Ordering::Less,
        k < before.len() ==> name_cmp(n, before[k]) == std::cmp::Ordering::Less,
    ensures
        names_sorted(before.insert(k, n)),
{
    before.insert_ensures(k, n);
    let after = before.insert(k, n);
    assert forall|i: int| 0 <= i < after.len() - 1 implies #[trigger] name_cmp(
        after[i],
        after[i + 1],
    ) == std::cmp::Ordering::Less by {
        if i + 1 < k {
            assert(after[i] == before[i]);
            assert(after[i + 1] == before[i + 1]);
        } else if i == k {
            assert(after[i + 1] == before[i]);
        } else if i > k {
            assert(after[i] == before[i - 1]);
            assert(after[i + 1] == before[i]);
        }
    }
    assert forall|i: int, j: int| 0 <= i < j < after.len() implies after[i] != after[j] by {
        if j < k {
            assert(after[i] == before[i]);
            assert(after[j] == before[j]);
        } else if j == k {
            assert(after[i] == before[i]);
        } else if i == k {
            assert(after[j] == before[j - 1]);
        } else if i < k {
            assert(after[i] == before[i]);
            assert(after[j] == before[j - 1]);
        } else {
            assert(after[i] == before[i - 1]);
            assert(after[j] == before[j - 1]);
        }
    }
}

/// The views of a sequence of names.
pub open spec fn views_of(s: Seq<ToolName>) -> Seq<ToolNameView> {
    s.map_values(|t: ToolName| t@)
}

/// The tool names that the user trusts.
#[derive(Debug)]
pub struct TrustCache {
    tools: Vec<ToolName>,
}

impl TrustCache {
    /// The trusted names, in order.
    pub closed spec fn names(&self) -> Seq<ToolNameView> {
        views_of(self.tools@)
    }

    /// The set of trusted names.
    pub open spec fn contents(&self) -> Set<ToolNameView> {
        self.names().to_set()
    }

    #[verifier::type_invariant]
    pub open spec fn inv(self) -> bool {
        names_sorted(self.names())
    }

    /// An empty cache.
    pub fn new() -> (r: TrustCache)
        ensures
            r.contents() == Set::<ToolNameView>::empty(),
    {
        let tools: Vec<ToolName> = Vec::new();
        assert(views_of(tools@) =~= Seq::<ToolNameView>::empty());
        let r = TrustCache { tools };
        assert(r.contents() =~= Set::<ToolNameView>::empty());
        r
    }

    pub fn len(&self) -> (r: usize)
        ensures
            r == self.contents().len(),
    {
        proof {
            use_type_invariant(self);
            lemma_distinct_len(self.names());
        }
        self.tools.len()
    }

    pub fn is_empty(&self) -> (r: bool)
        ensures
            r == (self.contents() == Set::<ToolNameView>::empty()),
    {
        proof {
            if self.tools@.len() > 0 {
                assert(self.contents().contains(self.names()[0]));
            } else {
                assert(self.contents() =~= Set::<ToolNameView>::empty());
            }
        }
        self.tools.len() == 0
    }

    /// Whether `name` is trusted.
    pub fn contains(&self, name: &ToolName) -> (r: bool)
        ensures
            r == self.contents().contains(name@),
    {
        let mut i: usize = 0;
        while i < self.tools.len()
            invariant
                i <= self.tools@.len(),
                forall|k: int| 0 <= k < i ==> self.names()[k] != name@,
            decreases self.tools@.len() - i,
        {
            if matches!(self.tools[i].compare(name), std::cmp::Ordering::Equal) {
                assert(self.names()[i as int] == name@);
                return true;
            }
            i = i + 1;
        }
        false
    }

    /// Records `name` as trusted; true when it was not trusted before.
    pub fn add(&mut self, name: ToolName) -> (r: bool)
        ensures
            r == !old(self).contents().contains(name@),
            final(self).contents() == old(self).contents().insert(name@),
    {
        if self.contains(&name) {
            assert(self.contents().insert(name@) =~= self.contents());
            return false;
        }
        proof {
            use_type_invariant(&*self);
        }
        let ghost before = self.names();
        assert forall|i: int| 0 <= i < before.len() implies #[trigger] before[i] != name@ by {
            if before[i] == name@ {
                assert(before.contains(name@));
            }
        }
        let mut k: usize = 0;
        while k < self.tools.len()
            invariant
                k <= self.tools@.len(),
                self.names() == before,
                forall|i: int| 0 <= i < before.len() ==> #[trigger] before[i] != name@,
                forall|m: int| 0 <= m < k ==> name_cmp(#[trigger] before[m], name@)
                    == std::cmp::Ordering::Less,
            ensures
                k <= before.len(),
                k < before.len() ==> name_cmp(name@, before[k as int]) == std::cmp::Ordering::Less,
            decreases self.tools@.len() - k,
        {
            let c = name.compare(&self.tools[k]);
            if matches!(c, std::cmp::Ordering::Less) {
                break;
            }
            assert(before[k as int] != name@);
            k = k + 1;
        }
        proof {
            before.insert_ensures(k as int, name@);
        }
        let ghost n = name@;
        let mut tools: Vec<ToolName> = Vec::new();
        let mut m: usize = 0;
        while m < k
            invariant
                m <= k <= self.tools@.len(),
                self.names() == before,
                views_of(tools@) == before.take(m as int),
            decreases k - m,
        {
            let t = self.tools[m].clone();
            assert(t@ == before[m as int]);
            let ghost prev = tools@;
            tools.push(t);
            assert(views_of(tools@) =~= views_of(prev).push(t@));
            m = m + 1;
            assert(views_of(tools@) =~= before.take(m as int));
        }
        let ghost prev = tools@;
        tools.push(name);
        assert(views_of(tools@) =~= views_of(prev).push(n));
        assert(views_of(tools@) =~= before.take(k as int).push(n));
        while m < self.tools.len()
            invariant
                k <= m <= self.tools@.len(),
                self.names() == before,
                views_of(tools@) == before.take(k as int).push(n) + before.subrange(
                    k as int,
                    m as int,
                ),
            decreases self.tools@.len() - m,
        {
            let t = self.tools[m].clone();
            assert(t@ == before[m as int]);
            let ghost prev = tools@;
            tools.push(t);
            assert(views_of(tools@) =~= views_of(prev).push(t@));
            m = m + 1;
            assert(views_of(tools@) =~= before.take(k as int).push(n)
                + before.subrange(k as int, m as int));
        }
        assert(views_of(tools@) =~= before.insert(k as int, n));
        proof {
            lemma_insert_sorted(before, k as int, n);
        }
        self.tools = tools;
        proof {
            lemma_insert_set(before, k as int, n);
        }
        true
    }

    /// Reads a cache file: every line that is a tool name is trusted.
    pub fn read(text: &str) -> (r: TrustCache)
        ensures
            r.contents() == names_in_text(text@),
    {
        let all = split_lines(text);
        let mut cache = TrustCache::new();
        let mut i: usize = 0;
        while i < all.len()
            invariant
                i <= all@.len(),
                all@.map_values(|l: &str| l@) == lines(text@),
                cache.contents() == Set::new(
                    |n: ToolNameView|
                        exists|j: int|
                            0 <= j < i && parse_name_spec(lines(text@)[j]) == Ok::<
                                ToolNameView,
                                crate::error::ParseErrorKind,
                            >(n),
                ),
            decreases all@.len() - i,
        {
            let ghost before = cache.contents();
            assert(lines(text@)[i as int] == all@[i as int]@);
            match crate::tool_name::parse_name_parts(all[i]) {
                Ok(name) => {
                    cache.add(name);
                },
                Err(_) => {},
            }
            i = i + 1;
            assert(cache.contents() =~= Set::new(
                |n: ToolNameView|
                    exists|j: int|
                        0 <= j < i && parse_name_spec(lines(text@)[j]) == Ok::<
                            ToolNameView,
                            crate::error::ParseErrorKind,
                        >(n),
            ));
        }
        cache
    }

    /// The text of the cache file: each trusted name on its own line, in
    /// order.
    pub fn render(&self) -> (r: String)
        ensures
            r@ == render_names(self.names()),
    {
        let mut r = String::new();
        let mut i: usize = 0;
        while i < self.tools.len()
            invariant
                i <= self.tools@.len(),
                r@ == render_names(self.names().take(i as int)),
            decreases self.tools@.len() - i,
        {
            let t = self.tools[i].to_string();
            r.append(t.as_str());
            r.append("\n");
            proof {
                reveal_strlit("\n");
                assert(self.names().take(i + 1).drop_last() =~= self.names().take(i as int));
            }
            i = i + 1;
        }
        assert(self.names().take(self.tools@.len() as int) =~= self.names());
        r
    }
}

/// What to do before installing a tool of a given name.
#[derive(Debug, Clone, Copy, PartialEq, Eq, Structural)]
pub enum TrustStep {
    /// The name is trusted: install.
    Trusted,
    /// Trust is not checked: record the name as trusted, then install.
    Record,
    /// Ask the user; on a yes, record the name and install.
    Ask,
    /// The terminal is not interactive, so nobody can be asked: fail and
    /// tell the user to add the tool from a terminal.
    Refuse,
}

pub open spec fn trust_step_spec(
    trusted: Set<ToolNameView>,
    name: ToolNameView,
    mode: TrustMode,
    interactive: bool,
) -> TrustStep {
    if trusted.contains(name) {
        TrustStep::Trusted
    } else if mode == TrustMode::NoCheck {
        TrustStep::Record
    } else if !interactive {
        TrustStep::Refuse
    } else {
        TrustStep::Ask
    }
}

/// Decides what must happen before `name` is installed, given the trust
/// cache, the mode, and whether the error stream is a terminal.
pub fn trust_step(cache: &TrustCache, name: &ToolName, mode: TrustMode, interactive: bool) -> (r:
    TrustStep)
    ensures
        r == trust_step_spec(cache.contents(), name@, mode, interactive),
{
    if cache.contains(name) {
        TrustStep::Trusted
    } else if mode == TrustMode::NoCheck {
        TrustStep::Record
    } else if !interactive {
        TrustStep::Refuse
    } else {
        TrustStep::Ask
    }
}

/// What follows the question: a yes records the name and goes on; a no, or
/// a prompt that was closed, ends the process.
#[derive(Debug, Clone, Copy, PartialEq, Eq, Structural)]
pub enum AnswerStep {
    Record,
    Exit(i32),
}

pub fn after_answer(answer: Option<bool>) -> (r: AnswerStep)
    ensures
        r == if answer == Some(true) {
            AnswerStep::Record
        } else {
            AnswerStep::Exit(1)
        },
{
    match answer {
        Some(true) => AnswerStep::Record,
        _ => AnswerStep::Exit(1),
    }
}

/// Once a name is in the trust cache, installing it (any version of it) is
/// never gated again, whatever the mode and the terminal: trust is asked
/// for at most once per name.
pub proof fn lemma_trusted_once(
    trusted: Set<ToolNameView>,
    name: ToolNameView,
    mode: TrustMode,
    interactive: bool,
)
    ensures
        trust_step_spec(trusted.insert(name), name, mode, interactive) == TrustStep::Trusted,
{
}

} // verus!
