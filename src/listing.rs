//! Turning a release listing, as the release provider reports it, into
//! releases: tags name versions, and only zip archives are assets.

use vstd::prelude::*;

use crate::archive::{ends_with, str_ends_with};
use crate::asset::{classify_arch, classify_os, classify_toolchain, Asset, Release};
use crate::version::{semver_read, Version};

verus! {

/// One asset of a listed release.
#[derive(Debug)]
pub struct GitHubReleaseAsset {
    pub url: String,
    pub name: String,
}

/// One release as listed: its tag, whether it is a pre-release, its assets.
#[derive(Debug)]
pub struct GitHubRelease {
    pub tag_name: String,
    pub prerelease: bool,
    pub assets: Vec<GitHubReleaseAsset>,
}

/// The version text of a tag: the tag without one leading `v`.
pub open spec fn tag_version(tag: Seq<char>) -> Seq<char> {
    if tag.len() > 0 && tag[0] == 'v' {
        tag.skip(1)
    } else {
        tag
    }
}

/// The listed assets that are zip archives, in order.
pub open spec fn zip_assets(s: Seq<GitHubReleaseAsset>) -> Seq<GitHubReleaseAsset>
    decreases s.len(),
{
    if s.len() == 0 {
        Seq::empty()
    } else if ends_with(s.last().name@, ".zip"@) {
        zip_assets(s.drop_last()).push(s.last())
    } else {
        zip_assets(s.drop_last())
    }
}

/// `a` is the asset read from the listed `g`.
pub open spec fn asset_from_listing(a: Asset, g: GitHubReleaseAsset) -> bool {
    &&& a.name@ == g.name@
    &&& a.url@ == g.url@
    &&& a.os == classify_os(g.name@)
    &&& a.arch == classify_arch(g.name@)
    &&& a.toolchain == classify_toolchain(g.name@)
}

/// `rel` is the release that the listed `g` stands for.
pub open spec fn release_matches(rel: Release, g: GitHubRelease) -> bool {
    &&& semver_read(tag_version(g.tag_name@)) == Some(rel.version@)
    &&& rel.prerelease == g.prerelease
    &&& rel.assets@.len() == zip_assets(g.assets@).len()
    &&& forall|k: int|
        0 <= k < rel.assets@.len() ==> asset_from_listing(
            #[trigger] rel.assets@[k],
            zip_assets(g.assets@)[k],
        )
}

/// The positions of the listed releases whose tag is a version, in order.
pub open spec fn versioned(list: Seq<GitHubRelease>) -> Seq<int>
    decreases list.len(),
{
    if list.len() == 0 {
        Seq::empty()
    } else if semver_read(tag_version(list.last().tag_name@)) is Some {
        versioned(list.drop_last()).push(list.len() - 1)
    } else {
        versioned(list.drop_last())
    }
}

/// The release that a listed release stands for, or `None` where its tag
/// is not a version.
pub fn release_from_listing(g: &GitHubRelease) -> (r: Option<Release>)
    ensures
        r is None <==> semver_read(tag_version(g.tag_name@)) is None,
        r matches Some(rel) ==> release_matches(rel, *g),
{
    let tag = g.tag_name.as_str();
    let n = tag.unicode_len();
    let text = if n > 0 && tag.get_char(0) == 'v' {
        let t = tag.substring_char(1, n);
        assert(t@ =~= tag@.skip(1));
        t
    } else {
        tag
    };
    let version = match Version::parse(text) {
        Some(v) => v,
        None => return None,
    };
    let mut assets: Vec<Asset> = Vec::new();
    let mut i: usize = 0;
    while i < g.assets.len()
        invariant
            i <= g.assets@.len(),
            assets@.len() == zip_assets(g.assets@.take(i as int)).len(),
            forall|k: int|
                0 <= k < assets@.len() ==> asset_from_listing(
                    #[trigger] assets@[k],
                    zip_assets(g.assets@.take(i as int))[k],
                ),
        decreases g.assets@.len() - i,
    {
        let a = &g.assets[i];
        proof {
            assert(g.assets@.take(i + 1).drop_last() =~= g.assets@.take(i as int));
            reveal_strlit(".zip");
        }
        if str_ends_with(a.name.as_str(), ".zip") {
            assets.push(Asset::from_name_url(a.name.as_str(), a.url.as_str()));
        }
        i = i + 1;
    }
    assert(g.assets@.take(g.assets@.len() as int) =~= g.assets@);
    Some(Release { version, prerelease: g.prerelease, assets })
}

/// The releases of a listing, in order; listed releases whose tag is not a
/// version are left out.
pub fn releases_from_listing(list: &Vec<GitHubRelease>) -> (r: Vec<Release>)
    ensures
        r@.len() == versioned(list@).len(),
        forall|k: int|
            0 <= k < r@.len() ==> release_matches(#[trigger] r@[k], list@[versioned(list@)[k]]),
{
    let mut r: Vec<Release> = Vec::new();
    let mut i: usize = 0;
    while i < list.len()
        invariant
            i <= list@.len(),
            r@.len() == versioned(list@.take(i as int)).len(),
            forall|k: int|
                0 <= k < r@.len() ==> release_matches(
                    #[trigger] r@[k],
                    list@[versioned(list@.take(i as int))[k]],
                ),
        decreases list@.len() - i,
    {
        proof {
            assert(list@.take(i + 1).drop_last() =~= list@.take(i as int));
            lemma_versioned_bounds(list@.take(i as int));
        }
        match release_from_listing(&list[i]) {
            Some(rel) => {
                r.push(rel);
            },
            None => {},
        }
        i = i + 1;
    }
    assert(list@.take(list@.len() as int) =~= list@);
    r
}

proof fn lemma_versioned_bounds(list: Seq<GitHubRelease>)
    ensures
        forall|k: int| 0 <= k < versioned(list).len() ==> 0 <= #[trigger] versioned(list)[k] < list.len(),
    decreases list.len(),
{
    if list.len() > 0 {
        let prev = versioned(list.drop_last());
        lemma_versioned_bounds(list.drop_last());
        assert forall|k: int| 0 <= k < versioned(list).len() implies 0 <= #[trigger] versioned(
            list,
        )[k] < list.len() by {
            if k < prev.len() {
                assert(versioned(list)[k] == prev[k]);
            }
        }
    }
}

} // verus!
