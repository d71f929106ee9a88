//! Choosing which release of a tool to install: newest first, skipping
//! releases that do not match the request or have no asset for the host.

use vstd::prelude::*;

use std::cmp::Ordering;

use crate::asset::{candidate, choose_asset, is_choice, Host, Release};
use crate::installed::InstalledToolsCache;
use crate::tool_id::{ToolId, ToolIdView};
use crate::tool_spec::{ToolSpec, ToolSpecView};
use crate::version::{core_cmp, version_cmp, flip, VersionView};

verus! {

/// The versions of `releases`, in order.
pub open spec fn versions_of(releases: Seq<Release>) -> Seq<VersionView> {
    releases.map_values(|r: Release| r.version@)
}

/// `order` lists positions of `releases` from newest to oldest: SemVer
/// order does not rise from one to the next, nor does `major.minor.patch`.
pub open spec fn newest_first(releases: Seq<Release>, order: Seq<usize>) -> bool {
    &&& forall|k: int| 0 <= k < order.len() ==> #[trigger] order[k] < releases.len()
    &&& forall|j: usize| j < releases.len() ==> #[trigger] order.contains(j)
    &&& forall|k: int|
        0 <= k < order.len() - 1 ==> #[trigger] version_cmp(
            releases[order[k] as int].version@,
            releases[order[k + 1] as int].version@,
        ) != Ordering::Less
    &&& forall|k: int|
        0 <= k < order.len() - 1 ==> #[trigger] core_cmp(
            releases[order[k] as int].version@,
            releases[order[k + 1] as int].version@,
        ) != Ordering::Less
}

/// `major.minor.patch` of `a` is at least that of `b`.
pub open spec fn core_ge(a: VersionView, b: VersionView) -> bool {
    core_cmp(a, b) != Ordering::Less
}

proof fn lemma_core_ge_trans(a: VersionView, b: VersionView, c: VersionView)
    requires
        core_ge(a, b),
        core_ge(b, c),
    ensures
        core_ge(a, c),
{
}

/// Along a newest-first order, `major.minor.patch` never rises.
proof fn lemma_newest_first_core(releases: Seq<Release>, order: Seq<usize>, p: int, q: int)
    requires
        newest_first(releases, order),
        0 <= p <= q < order.len(),
    ensures
        core_ge(releases[order[p] as int].version@, releases[order[q] as int].version@),
    decreases q - p,
{
    if p < q {
        lemma_newest_first_core(releases, order, p + 1, q);
        assert(core_cmp(
            releases[order[p] as int].version@,
            releases[order[p + 1] as int].version@,
        ) != Ordering::Less);
        lemma_core_ge_trans(
            releases[order[p] as int].version@,
            releases[order[p + 1] as int].version@,
            releases[order[q] as int].version@,
        );
    }
}

/// The positions of `releases` from newest to oldest; releases of equal
/// version keep their order.
pub fn sort_newest_first(releases: &Vec<Release>) -> (r: Vec<usize>)
    ensures
        newest_first(releases@, r@),
        r@.len() == releases@.len(),
{
    let mut order: Vec<usize> = Vec::new();
    let mut i: usize = 0;
    while i < releases.len()
        invariant
            i <= releases@.len(),
            order@.len() == i,
            forall|k: int| 0 <= k < order@.len() ==> #[trigger] order@[k] < i,
            forall|j: usize| j < i ==> #[trigger] order@.contains(j),
            forall|k: int|
                0 <= k < order@.len() - 1 ==> #[trigger] version_cmp(
                    releases@[order@[k] as int].version@,
                    releases@[order@[k + 1] as int].version@,
                ) != Ordering::Less,
            forall|k: int|
                0 <= k < order@.len() - 1 ==> #[trigger] core_cmp(
                    releases@[order@[k] as int].version@,
                    releases@[order@[k + 1] as int].version@,
                ) != Ordering::Less,
        decreases releases@.len() - i,
    {
        let v = &releases[i].version;
        let mut p: usize = 0;
        while p < order.len()
            invariant
                p <= order@.len(),
                i < releases@.len(),
                v == releases@[i as int].version,
                forall|k: int| 0 <= k < order@.len() ==> #[trigger] order@[k] < i,
                forall|m: int|
                    0 <= m < p ==> version_cmp(
                        releases@[#[trigger] order@[m] as int].version@,
                        v@,
                    ) != Ordering::Less && core_cmp(
                        releases@[order@[m] as int].version@,
                        v@,
                    ) != Ordering::Less,
            ensures
                p <= order@.len(),
                p < order@.len() ==> version_cmp(v@, releases@[order@[p as int] as int].version@)
                    == Ordering::Greater,
                p < order@.len() ==> core_cmp(v@, releases@[order@[p as int] as int].version@)
                    != Ordering::Less,
            decreases order@.len() - p,
        {
            let c = v.compare(&releases[order[p]].version);
            if matches!(c, Ordering::Greater) {
                break;
            }
            proof {
                let w = releases@[order@[p as int] as int].version@;
                assert(version_cmp(w, v@) == flip(c));
                if core_cmp(w, v@) == Ordering::Less {
                    assert(core_cmp(v@, w) == Ordering::Greater);
                }
            }
            p = p + 1;
        }
        let ghost before = order@;
        order.insert(p, i);
        proof {
            before.insert_ensures(p as int, i);
            assert forall|k: int| 0 <= k < order@.len() - 1 implies #[trigger] version_cmp(
                releases@[order@[k] as int].version@,
                releases@[order@[k + 1] as int].version@,
            ) != Ordering::Less by {
                if k + 1 < p {
                    assert(order@[k] == before[k] && order@[k + 1] == before[k + 1]);
                } else if k + 1 == p {
                    assert(order@[k] == before[k]);
                } else if k > p {
                    assert(order@[k] == before[k - 1] && order@[k + 1] == before[k]);
                }
            }
            assert forall|k: int| 0 <= k < order@.len() - 1 implies #[trigger] core_cmp(
                releases@[order@[k] as int].version@,
                releases@[order@[k + 1] as int].version@,
            ) != Ordering::Less by {
                if k + 1 < p {
                    assert(order@[k] == before[k] && order@[k + 1] == before[k + 1]);
                } else if k + 1 == p {
                    assert(order@[k] == before[k]);
                } else if k == p {
                    let w = releases@[before[k] as int].version@;
                    let x = releases@[i as int].version@;
                    if core_cmp(x, w) == Ordering::Less {
                        assert(version_cmp(x, w) == Ordering::Less);
                    }
                } else {
                    assert(order@[k] == before[k - 1] && order@[k + 1] == before[k]);
                }
            }
            assert forall|j: usize| j < i + 1 implies #[trigger] order@.contains(j) by {
                if j < i {
                    assert(before.contains(j));
                    let m = choose|m: int| 0 <= m < before.len() && before[m] == j;
                    if m < p {
                        assert(order@[m] == j);
                    } else {
                        assert(order@[m + 1] == j);
                    }
                } else {
                    assert(order@[p as int] == i);
                }
            }
        }
        i = i + 1;
    }
    order
}

/// Release `v` answers the request: it has the requested version, or no
/// version was requested.
pub open spec fn requested(spec: ToolSpecView, v: VersionView) -> bool {
    spec.version matches Some(w) ==> w == v
}

/// The id that release `i` would be installed as.
pub open spec fn release_id(spec: ToolSpecView, releases: Seq<Release>, i: int) -> ToolIdView {
    ToolIdView { name: spec.name, version: releases[i].version@ }
}

/// Release `i` can answer the request on `host`: it is requested, and it is
/// installed already or has an asset for the host.
pub open spec fn eligible(
    spec: ToolSpecView,
    releases: Seq<Release>,
    installed: Set<ToolIdView>,
    host: Host,
    i: int,
) -> bool {
    &&& 0 <= i < releases.len()
    &&& requested(spec, releases[i].version@)
    &&& installed.contains(release_id(spec, releases, i)) || exists|a: int|
        candidate(releases[i].assets@, a, host)
}

/// Every release that could answer has a `major.minor.patch` no higher
/// than release `i`'s.
pub open spec fn highest(
    spec: ToolSpecView,
    releases: Seq<Release>,
    installed: Set<ToolIdView>,
    host: Host,
    i: int,
) -> bool {
    forall|j: int| #[trigger]
        eligible(spec, releases, installed, host, j) ==> core_ge(
            releases[i].version@,
            releases[j].version@,
        )
}

/// The outcome of resolving a request against a tool's releases.
#[derive(Debug)]
pub enum Resolution {
    /// Release `release` is installed already as `id`: nothing to download.
    Installed { id: ToolId, release: usize },
    /// Download asset `asset` of release `release` and install it as `id`.
    Download { id: ToolId, release: usize, asset: usize },
    /// No release answers the request with an asset for the host.
    NoCompatibleRelease,
}

/// Resolves a request: the newest release that answers it and is either
/// installed already or has an asset for the host. A newer release with no
/// such asset is passed over for an older one.
pub fn resolve_spec(
    spec: &ToolSpec,
    releases: &Vec<Release>,
    installed: &InstalledToolsCache,
    host: &Host,
) -> (r: Resolution)
    ensures
        r is NoCompatibleRelease <==> forall|i: int|
            !#[trigger] eligible(spec@, releases@, installed.contents(), *host, i),
        r matches Resolution::Installed { id, release } ==> {
            &&& eligible(spec@, releases@, installed.contents(), *host, release as int)
            &&& id@ == release_id(spec@, releases@, release as int)
            &&& installed.contents().contains(id@)
            &&& highest(spec@, releases@, installed.contents(), *host, release as int)
        },
        r matches Resolution::Download { id, release, asset } ==> {
            &&& eligible(spec@, releases@, installed.contents(), *host, release as int)
            &&& id@ == release_id(spec@, releases@, release as int)
            &&& !installed.contents().contains(id@)
            &&& is_choice(releases@[release as int].assets@, asset as int, *host)
            &&& highest(spec@, releases@, installed.contents(), *host, release as int)
        },
{
    let total = releases.len();
    let order = sort_newest_first(releases);
    let ghost set = installed.contents();
    let mut q: usize = 0;
    while q < order.len()
        invariant
            newest_first(releases@, order@),
            order@.len() == releases@.len(),
            total == releases@.len(),
            q <= order@.len(),
            set == installed.contents(),
            forall|m: int|
                0 <= m < q ==> !eligible(spec@, releases@, set, *host, #[trigger] order@[m] as int),
        decreases order@.len() - q,
    {
        let i = order[q];
        let release = &releases[i];
        let wanted = match spec.version() {
            Some(w) => w.same_as(&release.version),
            None => true,
        };
        if wanted {
            let id = ToolId::new(spec.name().clone(), release.version.clone());
            assert(id@ == release_id(spec@, releases@, i as int));
            if installed.contains(&id) {
                proof {
                    assert(eligible(spec@, releases@, set, *host, i as int));
                    lemma_first_is_highest(spec@, releases@, set, *host, order@, q as int);
                }
                return Resolution::Installed { id, release: i };
            }
            match choose_asset(&release.assets, host) {
                Some(asset) => {
                    proof {
                        assert(candidate(release.assets@, asset as int, *host));
                        assert(eligible(spec@, releases@, set, *host, i as int));
                        lemma_first_is_highest(spec@, releases@, set, *host, order@, q as int);
                    }
                    return Resolution::Download { id, release: i, asset };
                },
                None => {},
            }
        }
        q = q + 1;
    }
    proof {
        assert forall|i: int| !#[trigger] eligible(spec@, releases@, set, *host, i) by {
            if 0 <= i < releases@.len() {
                assert(order@.contains(i as usize));
                let m = choose|m: int| 0 <= m < order@.len() && order@[m] == i as usize;
                assert(!eligible(spec@, releases@, set, *host, order@[m] as int));
            }
        }
    }
    Resolution::NoCompatibleRelease
}

/// The first release along a newest-first order that could answer has the
/// highest `major.minor.patch` of all that could.
proof fn lemma_first_is_highest(
    spec: ToolSpecView,
    releases: Seq<Release>,
    installed: Set<ToolIdView>,
    host: Host,
    order: Seq<usize>,
    q: int,
)
    requires
        newest_first(releases, order),
        releases.len() <= usize::MAX,
        0 <= q < order.len(),
        forall|m: int| 0 <= m < q ==> !eligible(spec, releases, installed, host, #[trigger] order[m] as int),
    ensures
        highest(spec, releases, installed, host, order[q] as int),
{
    assert forall|j: int| #[trigger] eligible(spec, releases, installed, host, j) implies core_ge(
        releases[order[q] as int].version@,
        releases[j].version@,
    ) by {
        assert(order.contains(j as usize));
        let m = choose|m: int| 0 <= m < order.len() && order[m] == j as usize;
        assert(order[m] as int == j);
        if m < q {
            assert(!eligible(spec, releases, installed, host, order[m] as int));
        } else {
            lemma_newest_first_core(releases, order, q, m);
        }
    }
}

/// With an exact version requested that is installed already, the id to
/// use; no release list is needed for it.
pub fn installed_exact(spec: &ToolSpec, installed: &InstalledToolsCache) -> (r: Option<ToolId>)
    ensures
        r is Some <==> (spec@.version matches Some(v) && installed.contents().contains(
            ToolIdView { name: spec@.name, version: v },
        )),
        r matches Some(id) ==> spec@.version == Some(id@.version) && id@.name == spec@.name,
{
    match spec.version() {
        Some(v) => {
            let id = ToolId::new(spec.name().clone(), v.clone());
            if installed.contains(&id) {
                Some(id)
            } else {
                None
            }
        },
        None => None,
    }
}

/// The position of the first release with exactly `version`.
pub fn find_release(releases: &Vec<Release>, version: &crate::version::Version) -> (r: Option<
    usize,
>)
    ensures
        match r {
            Some(i) => i < releases@.len() && releases@[i as int].version@ == version@ && forall|
                j: int,
            |
                0 <= j < i ==> releases@[j].version@ != version@,
            None => forall|j: int|
                0 <= j < releases@.len() ==> releases@[j].version@ != version@,
        },
{
    let mut i: usize = 0;
    while i < releases.len()
        invariant
            i <= releases@.len(),
            forall|j: int| 0 <= j < i ==> releases@[j].version@ != version@,
        decreases releases@.len() - i,
    {
        if releases[i].version.same_as(version) {
            return Some(i);
        }
        i = i + 1;
    }
    None
}

/// The outcome of resolving an exact id against its tool's releases.
#[derive(Debug, Clone, Copy, PartialEq, Eq, Structural)]
pub enum ExactResolution {
    /// Download asset `asset` of release `release`.
    Download { release: usize, asset: usize },
    /// No release has the id's version.
    ReleaseNotFound,
    /// The release has no asset for the host; with no other version to fall
    /// back on, this is fatal.
    NoCompatibleAsset { release: usize },
}

/// Resolves an exact id: its release, and the preferred asset of it for
/// the host.
pub fn resolve_id(id: &ToolId, releases: &Vec<Release>, host: &Host) -> (r: ExactResolution)
    ensures
        match r {
            ExactResolution::Download { release, asset } => {
                &&& release < releases@.len()
                &&& releases@[release as int].version@ == id@.version
                &&& forall|j: int| 0 <= j < release ==> releases@[j].version@ != id@.version
                &&& is_choice(releases@[release as int].assets@, asset as int, *host)
            },
            ExactResolution::ReleaseNotFound => forall|j: int|
                0 <= j < releases@.len() ==> releases@[j].version@ != id@.version,
            ExactResolution::NoCompatibleAsset { release } => {
                &&& release < releases@.len()
                &&& releases@[release as int].version@ == id@.version
                &&& forall|j: int| 0 <= j < release ==> releases@[j].version@ != id@.version
                &&& forall|a: int| !#[trigger] candidate(releases@[release as int].assets@, a, *host)
            },
        },
{
    match find_release(releases, id.version()) {
        None => ExactResolution::ReleaseNotFound,
        Some(i) => match choose_asset(&releases[i].assets, host) {
            Some(a) => ExactResolution::Download { release: i, asset: a },
            None => ExactResolution::NoCompatibleAsset { release: i },
        },
    }
}

} // verus!
