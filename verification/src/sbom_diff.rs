//! Which packages change between two images, from their software bills of
//! materials.

use crate::command::{host_command, on_host, CommandLine, CommandView};
use crate::json::{json_at, json_node_at, JsonNode, NodeView};
use crate::number::{decimal, u64_text};
use crate::text::{
    law_ascending_unique, law_split_concat, law_split_join, lemma_insert_ascending,
    lemma_split_nonempty, lex_le, optional_view, owned_views, replace_char, replaced, split,
    split_char, str_eq, str_le, strictly_ascending, views,
};
use crate::text_map::TextMap;
use vstd::prelude::*;

verus! {

/// A package that changes.
#[derive(Debug, Clone)]
pub struct PackageDiff {
    pub name: String,
    pub old_version: String,
    pub new_version: String,
}

/// What a changed package holds.
#[verifier::ext_equal]
pub struct PackageDiffView {
    pub name: Seq<char>,
    pub old_version: Seq<char>,
    pub new_version: Seq<char>,
}

impl View for PackageDiff {
    type V = PackageDiffView;

    open spec fn view(&self) -> PackageDiffView {
        PackageDiffView {
            name: self.name@,
            old_version: self.old_version@,
            new_version: self.new_version@,
        }
    }
}

/// Every change between two sets of packages.
#[derive(Debug, Clone)]
pub struct SbomDiffResult {
    pub upgraded: Vec<PackageDiff>,
    pub removed: Vec<String>,
    pub added: Vec<PackageDiff>,
}

/// What the changes hold.
#[verifier::ext_equal]
pub struct SbomDiffView {
    pub upgraded: Seq<PackageDiffView>,
    pub removed: Seq<Seq<char>>,
    pub added: Seq<PackageDiffView>,
}

/// The views of a list of changed packages.
pub open spec fn diff_views(list: Seq<PackageDiff>) -> Seq<PackageDiffView> {
    list.map_values(|d: PackageDiff| d@)
}

impl View for SbomDiffResult {
    type V = SbomDiffView;

    open spec fn view(&self) -> SbomDiffView {
        SbomDiffView {
            upgraded: diff_views(self.upgraded@),
            removed: owned_views(self.removed@),
            added: diff_views(self.added@),
        }
    }
}

/// The names of changed packages.
pub open spec fn names_of(list: Seq<PackageDiffView>) -> Seq<Seq<char>> {
    list.map_values(|d: PackageDiffView| d.name)
}

/// A package of both sets, with two versions.
pub open spec fn is_upgrade(
    booted: Map<Seq<char>, Seq<char>>,
    target: Map<Seq<char>, Seq<char>>,
    name: Seq<char>,
) -> bool {
    booted.dom().contains(name) && target.dom().contains(name) && booted[name] != target[name]
}

/// The changes that lead from the booted packages to the target's: each list is in
/// order of the names and holds each package once.
pub open spec fn is_diff(
    booted: Map<Seq<char>, Seq<char>>,
    target: Map<Seq<char>, Seq<char>>,
    diff: SbomDiffView,
) -> bool {
    &&& strictly_ascending(names_of(diff.upgraded))
    &&& strictly_ascending(diff.removed)
    &&& strictly_ascending(names_of(diff.added))
    &&& forall|name: Seq<char>| #[trigger]
        names_of(diff.upgraded).contains(name) <==> is_upgrade(booted, target, name)
    &&& forall|name: Seq<char>| #[trigger]
        diff.removed.contains(name) <==> booted.dom().contains(name) && !target.dom().contains(name)
    &&& forall|name: Seq<char>| #[trigger]
        names_of(diff.added).contains(name) <==> target.dom().contains(name)
            && !booted.dom().contains(name)
    &&& forall|i: int|
        0 <= i < diff.upgraded.len() ==> (#[trigger] diff.upgraded[i]).old_version
            == booted[diff.upgraded[i].name] && diff.upgraded[i].new_version
            == target[diff.upgraded[i].name]
    &&& forall|i: int|
        0 <= i < diff.added.len() ==> (#[trigger] diff.added[i]).old_version == ""@
            && diff.added[i].new_version == target[diff.added[i].name]
}

/// Where `name` belongs in the ascending names of `list`.
fn diff_place(list: &Vec<PackageDiff>, name: &str) -> (res: usize)
    requires
        strictly_ascending(names_of(diff_views(list@))),
        !names_of(diff_views(list@)).contains(name@),
    ensures
        res <= list@.len(),
        forall|j: int| 0 <= j < res ==> !lex_le(name@, #[trigger] names_of(diff_views(list@))[j]),
        res < list@.len() ==> lex_le(name@, names_of(diff_views(list@))[res as int]) && name@
            != names_of(diff_views(list@))[res as int],
{
    let mut at: usize = 0;
    while at < list.len() && !str_le(name, list[at].name.as_str())
        invariant
            at <= list@.len(),
            forall|j: int|
                0 <= j < at ==> !lex_le(name@, #[trigger] names_of(diff_views(list@))[j]),
        decreases list@.len() - at,
    {
        at = at + 1;
    }
    proof {
        if at < list@.len() {
            assert(names_of(diff_views(list@))[at as int] == list@[at as int].name@);
            assert(names_of(diff_views(list@)).contains(names_of(diff_views(list@))[at as int]));
        }
    }
    at
}

/// Puts a package into the list, which stays in order of the names.
fn insert_diff(list: &mut Vec<PackageDiff>, d: PackageDiff)
    requires
        strictly_ascending(names_of(diff_views(old(list)@))),
        !names_of(diff_views(old(list)@)).contains(d@.name),
    ensures
        strictly_ascending(names_of(diff_views(final(list)@))),
        forall|y: Seq<char>| #[trigger]
            names_of(diff_views(final(list)@)).contains(y) <==> names_of(
                diff_views(old(list)@),
            ).contains(y) || y == d@.name,
        forall|i: int|
            0 <= i < final(list)@.len() ==> #[trigger] diff_views(final(list)@)[i] == d@
                || diff_views(old(list)@).contains(diff_views(final(list)@)[i]),
{
    let at: usize = diff_place(list, d.name.as_str());
    let ghost before = list@;
    list.insert(at, d);
    proof {
        let after = list@;
        assert(names_of(diff_views(after)) =~= names_of(diff_views(before)).insert(
            at as int,
            d@.name,
        ));
        lemma_insert_ascending(names_of(diff_views(before)), at as int, d@.name);
        assert forall|i: int| 0 <= i < after.len() implies #[trigger] diff_views(after)[i] == d@
            || diff_views(before).contains(diff_views(after)[i]) by {
            if i < at {
                assert(diff_views(before)[i] == diff_views(after)[i]);
            } else if i > at {
                assert(diff_views(before)[i - 1] == diff_views(after)[i]);
            }
        }
    }
}

/// Puts a name into the list, which stays in order.
fn insert_name(list: &mut Vec<String>, name: String)
    requires
        strictly_ascending(owned_views(old(list)@)),
        !owned_views(old(list)@).contains(name@),
    ensures
        strictly_ascending(owned_views(final(list)@)),
        forall|y: Seq<char>| #[trigger]
            owned_views(final(list)@).contains(y) <==> owned_views(old(list)@).contains(y) || y
                == name@,
{
    let ghost before = owned_views(list@);
    let mut at: usize = 0;
    while at < list.len() && !str_le(name.as_str(), list[at].as_str())
        invariant
            at <= list@.len(),
            before == owned_views(list@),
            forall|j: int| 0 <= j < at ==> !lex_le(name@, #[trigger] before[j]),
        decreases list@.len() - at,
    {
        at = at + 1;
    }
    proof {
        if at < before.len() {
            assert(before[at as int] == list@[at as int]@);
            assert(before.contains(before[at as int]));
        }
    }
    list.insert(at, name);
    proof {
        assert(owned_views(list@) =~= before.insert(at as int, name@));
        lemma_insert_ascending(before, at as int, name@);
    }
}

/// The packages that change, disappear and appear between two images.
pub fn diff_packages(booted_map: &TextMap, target_map: &TextMap) -> (res: SbomDiffResult)
    requires
        booted_map.wf(),
        target_map.wf(),
    ensures
        is_diff(booted_map@, target_map@, res@),
{
    let ghost b = booted_map@;
    let ghost t = target_map@;
    let mut upgraded: Vec<PackageDiff> = Vec::new();
    let mut removed: Vec<String> = Vec::new();
    let mut added: Vec<PackageDiff> = Vec::new();
    let booted_len: usize = booted_map.len();
    let mut i: usize = 0;
    while i < booted_len
        invariant
            booted_map.wf(),
            target_map.wf(),
            b == booted_map@,
            t == target_map@,
            i <= booted_len,
            booted_len == booted_map.spec_len(),
            forall|x: int, y: int|
                0 <= x < y < booted_len ==> #[trigger] booted_map.spec_key(x)
                    != #[trigger] booted_map.spec_key(y),
            forall|k: Seq<char>| #[trigger]
                b.dom().contains(k) <==> exists|x: int|
                    0 <= x < booted_len && #[trigger] booted_map.spec_key(x) == k,
            strictly_ascending(names_of(diff_views(upgraded@))),
            strictly_ascending(owned_views(removed@)),
            forall|k: Seq<char>| #[trigger]
                names_of(diff_views(upgraded@)).contains(k) <==> is_upgrade(b, t, k) && exists|
                    x: int,
                |
                    0 <= x < i && #[trigger] booted_map.spec_key(x) == k,
            forall|k: Seq<char>| #[trigger]
                owned_views(removed@).contains(k) <==> !t.dom().contains(k) && exists|x: int|
                    0 <= x < i && #[trigger] booted_map.spec_key(x) == k,
            forall|x: int|
                0 <= x < upgraded@.len() ==> (#[trigger] diff_views(upgraded@)[x]).old_version
                    == b[diff_views(upgraded@)[x].name] && diff_views(upgraded@)[x].new_version
                    == t[diff_views(upgraded@)[x].name],
        decreases booted_len - i,
    {
        let (name, booted_ver) = booted_map.entry(i);
        let ghost was_upgraded = diff_views(upgraded@);
        let ghost was_removed = owned_views(removed@);
        match target_map.get(name) {
            Some(target_ver) => {
                if !str_eq(booted_ver, target_ver) {
                    let d = PackageDiff {
                        name: name.to_owned(),
                        old_version: booted_ver.to_owned(),
                        new_version: target_ver.to_owned(),
                    };
                    insert_diff(&mut upgraded, d);
                    proof {
                        assert forall|x: int| 0 <= x < upgraded@.len() implies (
                        #[trigger] diff_views(upgraded@)[x]).old_version
                            == b[diff_views(upgraded@)[x].name]
                            && diff_views(upgraded@)[x].new_version
                            == t[diff_views(upgraded@)[x].name] by {
                            let v = diff_views(upgraded@)[x];
                            if v != d@ {
                                let y = choose|y: int|
                                    0 <= y < was_upgraded.len() && was_upgraded[y] == v;
                                assert(was_upgraded[y].old_version == b[was_upgraded[y].name]);
                            }
                        }
                    }
                }
            },
            None => {
                insert_name(&mut removed, name.to_owned());
            },
        }
        proof {
            assert(booted_map.spec_key(i as int) == name@);
            assert forall|k: Seq<char>| #[trigger]
                names_of(diff_views(upgraded@)).contains(k) <==> is_upgrade(b, t, k) && exists|
                    x: int,
                |
                    0 <= x < i + 1 && #[trigger] booted_map.spec_key(x) == k by {
                assert(names_of(was_upgraded).contains(k) <==> is_upgrade(b, t, k) && exists|
                    x: int,
                |
                    0 <= x < i && #[trigger] booted_map.spec_key(x) == k);
            }
            assert forall|k: Seq<char>| #[trigger]
                owned_views(removed@).contains(k) <==> !t.dom().contains(k) && exists|x: int|
                    0 <= x < i + 1 && #[trigger] booted_map.spec_key(x) == k by {
                assert(was_removed.contains(k) <==> !t.dom().contains(k) && exists|x: int|
                    0 <= x < i && #[trigger] booted_map.spec_key(x) == k);
            }
        }
        i = i + 1;
    }
    let target_len: usize = target_map.len();
    let mut j: usize = 0;
    while j < target_len
        invariant
            booted_map.wf(),
            target_map.wf(),
            b == booted_map@,
            t == target_map@,
            j <= target_len,
            target_len == target_map.spec_len(),
            forall|x: int, y: int|
                0 <= x < y < target_len ==> #[trigger] target_map.spec_key(x)
                    != #[trigger] target_map.spec_key(y),
            strictly_ascending(names_of(diff_views(added@))),
            forall|k: Seq<char>| #[trigger]
                names_of(diff_views(added@)).contains(k) <==> !b.dom().contains(k) && exists|x: int|
                    0 <= x < j && #[trigger] target_map.spec_key(x) == k,
            forall|x: int|
                0 <= x < added@.len() ==> (#[trigger] diff_views(added@)[x]).old_version == ""@
                    && diff_views(added@)[x].new_version == t[diff_views(added@)[x].name],
        decreases target_len - j,
    {
        let (name, target_ver) = target_map.entry(j);
        let ghost was_added = diff_views(added@);
        if booted_map.get(name).is_none() {
            let d = PackageDiff {
                name: name.to_owned(),
                old_version: "".to_owned(),
                new_version: target_ver.to_owned(),
            };
            insert_diff(&mut added, d);
            proof {
                assert forall|x: int| 0 <= x < added@.len() implies (
                #[trigger] diff_views(added@)[x]).old_version == ""@
                    && diff_views(added@)[x].new_version == t[diff_views(added@)[x].name] by {
                    let v = diff_views(added@)[x];
                    if v != d@ {
                        let y = choose|y: int| 0 <= y < was_added.len() && was_added[y] == v;
                        assert(was_added[y].old_version == ""@);
                    }
                }
            }
        }
        proof {
            assert(target_map.spec_key(j as int) == name@);
            assert forall|k: Seq<char>| #[trigger]
                names_of(diff_views(added@)).contains(k) <==> !b.dom().contains(k) && exists|x: int|
                    0 <= x < j + 1 && #[trigger] target_map.spec_key(x) == k by {
                assert(names_of(was_added).contains(k) <==> !b.dom().contains(k) && exists|x: int|
                    0 <= x < j && #[trigger] target_map.spec_key(x) == k);
            }
        }
        j = j + 1;
    }
    SbomDiffResult { upgraded, removed, added }
}

/// Two images have one diff only.
pub proof fn law_diff_unique(
    booted: Map<Seq<char>, Seq<char>>,
    target: Map<Seq<char>, Seq<char>>,
    a: SbomDiffView,
    b: SbomDiffView,
)
    requires
        is_diff(booted, target, a),
        is_diff(booted, target, b),
    ensures
        a == b,
{
    assert forall|x: Seq<char>| #[trigger]
        names_of(a.upgraded).contains(x) <==> names_of(b.upgraded).contains(x) by {}
    assert forall|x: Seq<char>| #[trigger] a.removed.contains(x) <==> b.removed.contains(x) by {}
    assert forall|x: Seq<char>| #[trigger]
        names_of(a.added).contains(x) <==> names_of(b.added).contains(x) by {}
    law_ascending_unique(names_of(a.upgraded), names_of(b.upgraded));
    law_ascending_unique(a.removed, b.removed);
    law_ascending_unique(names_of(a.added), names_of(b.added));
    assert(names_of(a.upgraded).len() == a.upgraded.len());
    assert(names_of(b.upgraded).len() == b.upgraded.len());
    assert(names_of(a.added).len() == a.added.len());
    assert(names_of(b.added).len() == b.added.len());
    assert forall|i: int| 0 <= i < a.upgraded.len() implies a.upgraded[i] == b.upgraded[i] by {
        assert(names_of(a.upgraded)[i] == a.upgraded[i].name);
        assert(names_of(b.upgraded)[i] == b.upgraded[i].name);
        assert(a.upgraded[i].old_version == b.upgraded[i].old_version);
        assert(a.upgraded[i] =~= b.upgraded[i]);
    }
    assert forall|i: int| 0 <= i < a.added.len() implies a.added[i] == b.added[i] by {
        assert(names_of(a.added)[i] == a.added[i].name);
        assert(names_of(b.added)[i] == b.added[i].name);
        assert(a.added[i].old_version == b.added[i].old_version);
        assert(a.added[i] =~= b.added[i]);
    }
    assert(a.upgraded =~= b.upgraded);
    assert(a.added =~= b.added);
}

/// An image does not differ from itself.
pub proof fn law_no_diff_to_itself(packages: Map<Seq<char>, Seq<char>>, diff: SbomDiffView)
    requires
        is_diff(packages, packages, diff),
    ensures
        diff.upgraded.len() == 0,
        diff.removed.len() == 0,
        diff.added.len() == 0,
{
    if diff.upgraded.len() > 0 {
        assert(names_of(diff.upgraded).contains(names_of(diff.upgraded)[0]));
    }
    if diff.removed.len() > 0 {
        assert(diff.removed.contains(diff.removed[0]));
    }
    if diff.added.len() > 0 {
        assert(names_of(diff.added).contains(names_of(diff.added)[0]));
    }
}

/// Every package of either image is removed, added, upgraded or unchanged, and only
/// one of these; the target is the booted image with these changes made.
pub proof fn law_diff_leads_to_target(
    booted: Map<Seq<char>, Seq<char>>,
    target: Map<Seq<char>, Seq<char>>,
    diff: SbomDiffView,
    name: Seq<char>,
)
    requires
        is_diff(booted, target, diff),
    ensures
        target.dom().contains(name) <==> names_of(diff.added).contains(name)
            || booted.dom().contains(name) && !diff.removed.contains(name),
        target.dom().contains(name) && !names_of(diff.added).contains(name) && !names_of(
            diff.upgraded,
        ).contains(name) ==> target[name] == booted[name],
        forall|i: int|
            0 <= i < diff.upgraded.len() && (#[trigger] diff.upgraded[i]).name == name
                ==> target[name] == diff.upgraded[i].new_version,
        forall|i: int|
            0 <= i < diff.added.len() && (#[trigger] diff.added[i]).name == name ==> target[name]
                == diff.added[i].new_version,
        !(names_of(diff.added).contains(name) && diff.removed.contains(name)),
        !(names_of(diff.added).contains(name) && names_of(diff.upgraded).contains(name)),
        !(diff.removed.contains(name) && names_of(diff.upgraded).contains(name)),
{
}

/// The way back undoes the way there: what was added is removed, what was removed is
/// added, and upgraded versions change places.
pub proof fn law_diff_reversed(
    booted: Map<Seq<char>, Seq<char>>,
    target: Map<Seq<char>, Seq<char>>,
    there: SbomDiffView,
    back: SbomDiffView,
)
    requires
        is_diff(booted, target, there),
        is_diff(target, booted, back),
    ensures
        back.removed == names_of(there.added),
        names_of(back.added) == there.removed,
        names_of(back.upgraded) == names_of(there.upgraded),
        back.upgraded.len() == there.upgraded.len(),
        forall|i: int|
            0 <= i < there.upgraded.len() ==> (#[trigger] there.upgraded[i]).old_version
                == back.upgraded[i].new_version && there.upgraded[i].new_version
                == back.upgraded[i].old_version,
{
    assert forall|x: Seq<char>| #[trigger]
        back.removed.contains(x) <==> names_of(there.added).contains(x) by {}
    assert forall|x: Seq<char>| #[trigger]
        names_of(back.added).contains(x) <==> there.removed.contains(x) by {}
    assert forall|x: Seq<char>| #[trigger]
        names_of(back.upgraded).contains(x) <==> names_of(there.upgraded).contains(x) by {}
    law_ascending_unique(back.removed, names_of(there.added));
    law_ascending_unique(names_of(back.added), there.removed);
    law_ascending_unique(names_of(back.upgraded), names_of(there.upgraded));
    assert(names_of(back.upgraded).len() == back.upgraded.len());
    assert(names_of(there.upgraded).len() == there.upgraded.len());
    assert forall|i: int| 0 <= i < there.upgraded.len() implies (
    #[trigger] there.upgraded[i]).old_version == back.upgraded[i].new_version
        && there.upgraded[i].new_version == back.upgraded[i].old_version by {
        assert(names_of(there.upgraded)[i] == there.upgraded[i].name);
        assert(names_of(back.upgraded)[i] == back.upgraded[i].name);
    }
}

/// A package as an SPDX document lists it.
#[derive(Debug, Clone)]
pub struct SpdxPackage {
    pub name: String,
    pub version_info: Option<String>,
}

/// The version of a listed package.
pub open spec fn version_of(package: SpdxPackage) -> Seq<char> {
    match package.version_info {
        Some(v) => v@,
        None => "unknown"@,
    }
}

/// The listed packages by name. A later entry replaces an earlier one of the same
/// name.
pub open spec fn packages_by_name(list: Seq<SpdxPackage>) -> Map<Seq<char>, Seq<char>>
    decreases list.len(),
{
    if list.len() == 0 {
        Map::empty()
    } else {
        packages_by_name(list.drop_last()).insert(list.last().name@, version_of(list.last()))
    }
}

/// The packages of an SPDX document by name, with their versions; none where the
/// document lists none.
pub fn package_map(packages: &Option<Vec<SpdxPackage>>) -> (res: TextMap)
    ensures
        res.wf(),
        res@ == match packages {
            Some(list) => packages_by_name(list@),
            None => Map::empty(),
        },
{
    let mut map = TextMap::new();
    if let Some(list) = packages {
        let mut i: usize = 0;
        assert(list@.take(0) =~= Seq::empty());
        while i < list.len()
            invariant
                i <= list@.len(),
                map.wf(),
                map@ == packages_by_name(list@.take(i as int)),
            decreases list@.len() - i,
        {
            let version: String = match &list[i].version_info {
                Some(v) => v.as_str().to_owned(),
                None => "unknown".to_owned(),
            };
            map.insert(list[i].name.as_str().to_owned(), version);
            proof {
                assert(list@.take(i + 1).drop_last() =~= list@.take(i as int));
            }
            i = i + 1;
        }
        assert(list@.take(i as int) =~= list@);
    }
    map
}

/// Something that refers to an image, as `oras discover` lists it.
#[derive(Debug, Clone)]
pub struct Referrer {
    pub artifact_type: Option<String>,
    pub digest: Option<String>,
}

/// What a referrer holds.
#[verifier::ext_equal]
pub struct ReferrerView {
    pub artifact_type: Option<Seq<char>>,
    pub digest: Option<Seq<char>>,
}

impl View for Referrer {
    type V = ReferrerView;

    open spec fn view(&self) -> ReferrerView {
        ReferrerView {
            artifact_type: optional_view(self.artifact_type),
            digest: optional_view(self.digest),
        }
    }
}

/// The views of a list of referrers.
pub open spec fn referrer_views(list: Seq<Referrer>) -> Seq<ReferrerView> {
    list.map_values(|r: Referrer| r@)
}

/// The digest of the first SPDX document among the referrers. Where that entry has
/// no digest, there is none.
pub open spec fn first_spdx_digest(list: Seq<ReferrerView>) -> Option<Seq<char>>
    decreases list.len(),
{
    if list.len() == 0 {
        None
    } else if list[0].artifact_type == Some("application/vnd.spdx+json"@) {
        list[0].digest
    } else {
        first_spdx_digest(list.drop_first())
    }
}

/// The digest of the first SPDX document among the referrers.
pub fn spdx_digest(referrers: &Vec<Referrer>) -> (res: Option<String>)
    ensures
        optional_view(res) == first_spdx_digest(referrer_views(referrers@)),
{
    let ghost all = referrer_views(referrers@);
    let mut i: usize = 0;
    assert(all.skip(0) =~= all);
    while i < referrers.len()
        invariant
            i <= referrers@.len(),
            all == referrer_views(referrers@),
            first_spdx_digest(all) == first_spdx_digest(all.skip(i as int)),
        decreases referrers@.len() - i,
    {
        proof {
            assert(all.skip(i as int)[0] == referrers@[i as int]@);
            assert(all.skip(i as int).drop_first() =~= all.skip(i + 1));
        }
        if let Some(kind) = &referrers[i].artifact_type {
            if str_eq(kind.as_str(), "application/vnd.spdx+json") {
                return match &referrers[i].digest {
                    Some(d) => Some(d.as_str().to_owned()),
                    None => None,
                };
            }
        }
        i = i + 1;
    }
    None
}

/// Where a document keeps a property of its i-th referrer.
pub open spec fn referrer_pointer(i: nat, property: Seq<char>) -> Seq<char> {
    "/referrers/"@ + decimal(i) + property
}

/// The i-th referrer of a document.
pub open spec fn referrer_at(document: Seq<u8>, i: nat) -> ReferrerView {
    ReferrerView {
        artifact_type: json_at(document, referrer_pointer(i, "/artifactType"@)).text(),
        digest: json_at(document, referrer_pointer(i, "/digest"@)).text(),
    }
}

/// The referrers that a document lists; none where it lists none.
pub open spec fn referrers_in(document: Seq<u8>) -> Seq<ReferrerView> {
    match json_at(document, "/referrers"@) {
        NodeView::List(n) => Seq::new(n, |i: int| referrer_at(document, i as nat)),
        _ => Seq::empty(),
    }
}

fn referrer_text(document: &[u8], i: usize, property: &str) -> (res: Option<String>)
    ensures
        optional_view(res) == json_at(document@, referrer_pointer(i as nat, property@)).text(),
{
    let mut pointer: String = "/referrers/".to_owned();
    pointer.append(u64_text(i as u64).as_str());
    pointer.append(property);
    json_node_at(document, pointer.as_str()).into_text()
}

/// The digest of the SPDX document that the output of `oras discover` names.
pub fn spdx_referrer_digest(document: &[u8]) -> (res: Option<String>)
    ensures
        optional_view(res) == first_spdx_digest(referrers_in(document@)),
{
    let mut list: Vec<Referrer> = Vec::new();
    if let JsonNode::List(n) = json_node_at(document, "/referrers") {
        let mut i: usize = 0;
        while i < n
            invariant
                i <= n,
                referrers_in(document@).len() == n,
                forall|k: int|
                    0 <= k < n ==> #[trigger] referrers_in(document@)[k] == referrer_at(
                        document@,
                        k as nat,
                    ),
                referrer_views(list@) == referrers_in(document@).take(i as int),
            decreases n - i,
        {
            let ghost before = list@;
            let artifact_type = referrer_text(document, i, "/artifactType");
            let digest = referrer_text(document, i, "/digest");
            list.push(Referrer { artifact_type, digest });
            proof {
                let r = list@.last()@;
                assert(r =~= referrer_at(document@, i as nat));
                assert(referrer_views(list@) =~= referrer_views(before).push(r));
                assert(referrers_in(document@).take(i + 1) =~= referrers_in(document@).take(
                    i as int,
                ).push(r));
            }
            i = i + 1;
        }
    }
    assert(referrer_views(list@) =~= referrers_in(document@));
    spdx_digest(&list)
}

/// Where `oras` may be found, in the order in which the places are tried.
pub open spec fn oras_places(in_flatpak: bool) -> Seq<Seq<char>> {
    if in_flatpak {
        seq![
            "oras"@,
            "/home/linuxbrew/.linuxbrew/bin/oras"@,
            "/home/james/.linuxbrew/bin/oras"@,
            "/usr/local/bin/oras"@,
            "/usr/bin/oras"@,
        ]
    } else {
        seq![
            "oras"@,
            "/home/linuxbrew/.linuxbrew/bin/oras"@,
            "/usr/local/bin/oras"@,
            "/usr/bin/oras"@,
        ]
    }
}

/// The views of a list of command lines.
pub open spec fn command_views(list: Seq<CommandLine>) -> Seq<CommandView> {
    list.map_values(|c: CommandLine| c@)
}

/// The command lines to try, one after the other, to run `oras` with `args`.
pub open spec fn oras_lines(in_flatpak: bool, args: Seq<Seq<char>>) -> Seq<CommandView> {
    oras_places(in_flatpak).map_values(|place: Seq<char>| on_host(in_flatpak, place, args))
}

/// The command lines to try, one after the other, to run `oras` with `args`.
pub fn oras_commands(in_flatpak: bool, args: &Vec<&str>) -> (res: Vec<CommandLine>)
    ensures
        command_views(res@) == oras_lines(in_flatpak, views(args@)),
{
    let places: Vec<&str> = if in_flatpak {
        vec![
            "oras",
            "/home/linuxbrew/.linuxbrew/bin/oras",
            "/home/james/.linuxbrew/bin/oras",
            "/usr/local/bin/oras",
            "/usr/bin/oras",
        ]
    } else {
        vec![
            "oras",
            "/home/linuxbrew/.linuxbrew/bin/oras",
            "/usr/local/bin/oras",
            "/usr/bin/oras",
        ]
    };
    assert(views(places@) =~= oras_places(in_flatpak));
    let mut out: Vec<CommandLine> = Vec::new();
    let mut i: usize = 0;
    while i < places.len()
        invariant
            i <= places@.len(),
            views(places@) == oras_places(in_flatpak),
            out@.len() == i,
            forall|k: int|
                0 <= k < i ==> (#[trigger] out@[k])@ == on_host(
                    in_flatpak,
                    oras_places(in_flatpak)[k],
                    views(args@),
                ),
        decreases places@.len() - i,
    {
        assert(views(places@)[i as int] == places@[i as int]@);
        out.push(host_command(in_flatpak, places[i], args));
        i = i + 1;
    }
    assert(command_views(out@) =~= oras_lines(in_flatpak, views(args@)));
    out
}

/// The name of the directory for a digest.
pub open spec fn digest_directory(digest: Seq<char>) -> Seq<char> {
    replaced(digest, ':', '_')
}

/// Where a document is put by the host and where this process reads it.
pub open spec fn sbom_paths(
    digest: Seq<char>,
    in_flatpak: bool,
    home: Seq<char>,
    user: Seq<char>,
) -> (Seq<char>, Seq<char>) {
    let dir = digest_directory(digest);
    if in_flatpak {
        (
            "/var/home/"@ + user
                + "/.var/app/org.projectbluefin.Finupdate.Devel/cache/finupdate/sbom/"@ + dir,
            home + "/.cache/finupdate/sbom/"@ + dir,
        )
    } else {
        ("/tmp/finupdate/sbom/"@ + dir, "/tmp/finupdate/sbom/"@ + dir)
    }
}

/// Where a document is put and read, where the home and the user may not be known.
pub open spec fn sbom_places(
    digest: Seq<char>,
    in_flatpak: bool,
    home: Option<Seq<char>>,
    user: Option<Seq<char>>,
) -> (Seq<char>, Seq<char>) {
    sbom_paths(
        digest,
        in_flatpak,
        match home {
            Some(h) => h,
            None => "/home/james"@,
        },
        match user {
            Some(u) => u,
            None => "james"@,
        },
    )
}

/// Where the host writes the documents of a digest, and where this process reads
/// them. `home` and `user` are those of the environment, where it has them.
pub fn get_sbom_paths(
    digest: &str,
    in_flatpak: bool,
    home: Option<&str>,
    user: Option<&str>,
) -> (res: (String, String))
    ensures
        (res.0@, res.1@) == sbom_places(
            digest@,
            in_flatpak,
            match home {
                Some(h) => Some(h@),
                None => None,
            },
            match user {
                Some(u) => Some(u@),
                None => None,
            },
        ),
{
    proof {
        reveal_strlit("_");
    }
    let dir: String = replace_char(digest, ':', "_");
    if in_flatpak {
        let mut read: String = match home {
            Some(h) => h.to_owned(),
            None => "/home/james".to_owned(),
        };
        read.append("/.cache/finupdate/sbom/");
        read.append(dir.as_str());
        let mut write: String = "/var/home/".to_owned();
        match user {
            Some(u) => write.append(u),
            None => write.append("james"),
        }
        write.append("/.var/app/org.projectbluefin.Finupdate.Devel/cache/finupdate/sbom/");
        write.append(dir.as_str());
        (write, read)
    } else {
        let mut write: String = "/tmp/finupdate/sbom/".to_owned();
        write.append(dir.as_str());
        let mut read: String = "/tmp/finupdate/sbom/".to_owned();
        read.append(dir.as_str());
        (write, read)
    }
}

/// The name of a document within the repository of an image.
pub open spec fn pull_name(image_ref: Seq<char>, digest: Seq<char>) -> Seq<char> {
    split(image_ref, ':')[0] + "@"@ + digest
}

/// The name of a document within the repository of an image: what stands before the
/// first colon, and the digest.
pub fn pull_reference(image_ref: &str, digest: &str) -> (res: String)
    ensures
        res@ == pull_name(image_ref@, digest@),
{
    let parts = split_char(image_ref, ':');
    proof {
        lemma_split_nonempty(image_ref@, ':');
        assert(views(parts@).len() == parts@.len());
        assert(views(parts@)[0] == parts@[0]@);
    }
    let mut name: String = parts[0].to_owned();
    name.append("@");
    name.append(digest);
    name
}

/// The command lines that ask for the documents of an image.
pub open spec fn discover_lines(in_flatpak: bool, image_ref: Seq<char>) -> Seq<CommandView> {
    oras_lines(
        in_flatpak,
        seq!["discover"@, "--format"@, "json"@, "--depth"@, "1"@, image_ref],
    )
}

/// The command lines that fetch a document into a directory.
pub open spec fn pull_lines(
    in_flatpak: bool,
    directory: Seq<char>,
    reference: Seq<char>,
) -> Seq<CommandView> {
    oras_lines(in_flatpak, seq!["pull"@, "--output"@, directory, reference])
}

/// The command lines to try to learn what refers to an image.
pub fn discover_commands(in_flatpak: bool, image_ref: &str) -> (res: Vec<CommandLine>)
    ensures
        command_views(res@) == discover_lines(in_flatpak, image_ref@),
{
    let args: Vec<&str> = vec!["discover", "--format", "json", "--depth", "1", image_ref];
    assert(views(args@) =~= seq![
        "discover"@,
        "--format"@,
        "json"@,
        "--depth"@,
        "1"@,
        image_ref@,
    ]);
    oras_commands(in_flatpak, &args)
}

/// The command lines to try to fetch a document into a directory.
pub fn pull_commands(in_flatpak: bool, directory: &str, reference: &str) -> (res: Vec<CommandLine>)
    ensures
        command_views(res@) == pull_lines(in_flatpak, directory@, reference@),
{
    let args: Vec<&str> = vec!["pull", "--output", directory, reference];
    assert(views(args@) =~= seq!["pull"@, "--output"@, directory@, reference@]);
    oras_commands(in_flatpak, &args)
}

/// An upgraded package is listed with the version it has and the version it gets; a new
/// package with the version it gets and no earlier one.
pub proof fn law_diff_versions(
    booted: Map<Seq<char>, Seq<char>>,
    target: Map<Seq<char>, Seq<char>>,
    diff: SbomDiffView,
)
    requires
        is_diff(booted, target, diff),
    ensures
        forall|i: int|
            0 <= i < diff.upgraded.len() ==> {
                let d = #[trigger] diff.upgraded[i];
                &&& booted.dom().contains(d.name) && d.old_version == booted[d.name]
                &&& target.dom().contains(d.name) && d.new_version == target[d.name]
                &&& d.old_version != d.new_version
            },
        forall|i: int|
            0 <= i < diff.added.len() ==> {
                let d = #[trigger] diff.added[i];
                &&& !booted.dom().contains(d.name) && d.old_version.len() == 0
                &&& target.dom().contains(d.name) && d.new_version == target[d.name]
            },
        forall|i: int|
            0 <= i < diff.removed.len() ==> booted.dom().contains(#[trigger] diff.removed[i])
                && !target.dom().contains(diff.removed[i]),
{
    reveal_strlit("");
    assert forall|i: int| 0 <= i < diff.upgraded.len() implies {
        let d = #[trigger] diff.upgraded[i];
        &&& booted.dom().contains(d.name) && d.old_version == booted[d.name]
        &&& target.dom().contains(d.name) && d.new_version == target[d.name]
        &&& d.old_version != d.new_version
    } by {
        assert(names_of(diff.upgraded)[i] == diff.upgraded[i].name);
        assert(names_of(diff.upgraded).contains(diff.upgraded[i].name));
    }
    assert forall|i: int| 0 <= i < diff.added.len() implies {
        let d = #[trigger] diff.added[i];
        &&& !booted.dom().contains(d.name) && d.old_version.len() == 0
        &&& target.dom().contains(d.name) && d.new_version == target[d.name]
    } by {
        assert(names_of(diff.added)[i] == diff.added[i].name);
        assert(names_of(diff.added).contains(diff.added[i].name));
    }
    assert forall|i: int| 0 <= i < diff.removed.len() implies booted.dom().contains(
        #[trigger] diff.removed[i],
    ) && !target.dom().contains(diff.removed[i]) by {
        assert(diff.removed.contains(diff.removed[i]));
    }
}

/// The lists of a diff are in alphabetical order and name no package twice.
pub proof fn law_diff_sorted(
    booted: Map<Seq<char>, Seq<char>>,
    target: Map<Seq<char>, Seq<char>>,
    diff: SbomDiffView,
    i: int,
    j: int,
)
    requires
        is_diff(booted, target, diff),
        0 <= i < j,
    ensures
        j < diff.upgraded.len() ==> lex_le(diff.upgraded[i].name, diff.upgraded[j].name)
            && diff.upgraded[i].name != diff.upgraded[j].name,
        j < diff.added.len() ==> lex_le(diff.added[i].name, diff.added[j].name)
            && diff.added[i].name != diff.added[j].name,
        j < diff.removed.len() ==> lex_le(diff.removed[i], diff.removed[j]) && diff.removed[i]
            != diff.removed[j],
{
    if j < diff.upgraded.len() {
        assert(names_of(diff.upgraded)[i] == diff.upgraded[i].name);
        assert(names_of(diff.upgraded)[j] == diff.upgraded[j].name);
    }
    if j < diff.added.len() {
        assert(names_of(diff.added)[i] == diff.added[i].name);
        assert(names_of(diff.added)[j] == diff.added[j].name);
    }
}

/// A listed package has the version of its last entry, and the word unknown where that
/// entry has none; nothing is known of a package that is not listed.
#[verifier::spinoff_prover]
#[verifier::rlimit(40)]
pub proof fn law_packages_by_name(list: Seq<SpdxPackage>, name: Seq<char>)
    ensures
        packages_by_name(list).dom().contains(name) <==> exists|i: int|
            0 <= i < list.len() && (#[trigger] list[i]).name@ == name,
        forall|i: int|
            0 <= i < list.len() && (#[trigger] list[i]).name@ == name && (forall|j: int|
                i < j < list.len() ==> (#[trigger] list[j]).name@ != name) ==> packages_by_name(
                list,
            )[name] == match list[i].version_info {
                Some(v) => v@,
                None => "unknown"@,
            },
    decreases list.len(),
{
    if list.len() > 0 {
        let front = list.drop_last();
        let n = list.len() - 1;
        law_packages_by_name(front, name);
        if list.last().name@ == name {
            assert(list[n].name@ == name);
            assert forall|i: int|
                0 <= i < list.len() && (#[trigger] list[i]).name@ == name && (forall|j: int|
                    i < j < list.len() ==> (#[trigger] list[j]).name@ != name) implies packages_by_name(
                list,
            )[name] == match list[i].version_info {
                Some(v) => v@,
                None => "unknown"@,
            } by {
                if i < n {
                    assert(list[n].name@ != name);
                }
            }
        } else {
            if exists|i: int| 0 <= i < list.len() && (#[trigger] list[i]).name@ == name {
                let i = choose|i: int| 0 <= i < list.len() && (#[trigger] list[i]).name@ == name;
                assert(front[i].name@ == name);
            }
            if exists|i: int| 0 <= i < front.len() && (#[trigger] front[i]).name@ == name {
                let i = choose|i: int| 0 <= i < front.len() && (#[trigger] front[i]).name@ == name;
                assert(list[i].name@ == name);
            }
            assert forall|i: int|
                0 <= i < list.len() && (#[trigger] list[i]).name@ == name && (forall|j: int|
                    i < j < list.len() ==> (#[trigger] list[j]).name@ != name) implies packages_by_name(
                list,
            )[name] == match list[i].version_info {
                Some(v) => v@,
                None => "unknown"@,
            } by {
                assert(front[i].name@ == name);
                assert forall|j: int| i < j < front.len() implies (#[trigger] front[j]).name@
                    != name by {
                    assert(list[j].name@ != name);
                }
            }
        }
    }
}

/// The digest is that of the first referrer of the SPDX type; there is none where no
/// referrer is of that type.
#[verifier::spinoff_prover]
#[verifier::rlimit(40)]
pub proof fn law_spdx_digest(list: Seq<ReferrerView>, i: int)
    ensures
        0 <= i < list.len() && list[i].artifact_type == Some("application/vnd.spdx+json"@) && (
        forall|j: int|
            0 <= j < i ==> (#[trigger] list[j]).artifact_type != Some(
                "application/vnd.spdx+json"@,
            )) ==> first_spdx_digest(list) == list[i].digest,
        (forall|j: int|
            0 <= j < list.len() ==> (#[trigger] list[j]).artifact_type != Some(
                "application/vnd.spdx+json"@,
            )) ==> first_spdx_digest(list) is None,
    decreases list.len(),
{
    if list.len() > 0 {
        let rest = list.drop_first();
        law_spdx_digest(rest, i - 1);
        assert forall|j: int| 0 <= j < rest.len() implies #[trigger] rest[j] == list[j + 1] by {}
        if 0 < i < list.len() {
            assert(list[i] == rest[i - 1]);
            if forall|j: int|
                0 <= j < i ==> (#[trigger] list[j]).artifact_type != Some(
                    "application/vnd.spdx+json"@,
                ) {
                assert(list[0].artifact_type != Some("application/vnd.spdx+json"@));
                assert forall|j: int| 0 <= j < i - 1 implies (#[trigger] rest[j]).artifact_type
                    != Some("application/vnd.spdx+json"@) by {
                    assert(list[j + 1].artifact_type != Some("application/vnd.spdx+json"@));
                }
            }
        }
        if forall|j: int|
            0 <= j < list.len() ==> (#[trigger] list[j]).artifact_type != Some(
                "application/vnd.spdx+json"@,
            ) {
            assert(list[0].artifact_type != Some("application/vnd.spdx+json"@));
            assert forall|j: int| 0 <= j < rest.len() implies (#[trigger] rest[j]).artifact_type
                != Some("application/vnd.spdx+json"@) by {
                assert(list[j + 1].artifact_type != Some("application/vnd.spdx+json"@));
            }
        }
    }
}

/// The referrers of a document are the items of its list, each with the type and the
/// digest that stand there as strings.
pub proof fn law_referrers(document: Seq<u8>, n: nat, i: int)
    requires
        json_at(document, "/referrers"@) == NodeView::List(n),
        0 <= i < n,
    ensures
        referrers_in(document).len() == n,
        referrers_in(document)[i].artifact_type == json_at(
            document,
            "/referrers/"@ + decimal(i as nat) + "/artifactType"@,
        ).text(),
        referrers_in(document)[i].digest == json_at(
            document,
            "/referrers/"@ + decimal(i as nat) + "/digest"@,
        ).text(),
{
}

/// A document is named after the repository of the image, without its tag, and the
/// digest.
pub proof fn law_pull_name(repository: Seq<char>, tag: Seq<char>, digest: Seq<char>)
    requires
        !repository.contains(':'),
    ensures
        pull_name(repository + ":"@ + tag, digest) == repository + "@"@ + digest,
        pull_name(repository, digest) == repository + "@"@ + digest,
{
    reveal_strlit(":");
    assert(repository + ":"@ + tag =~= repository.push(':') + tag);
    law_split_concat(repository, tag, ':');
    law_split_join(seq![repository], ':');
}

/// Outside a sandbox documents are written and read at the same place. Either place ends
/// in the digest, with underscores in place of its colons.
pub proof fn law_sbom_paths(
    digest: Seq<char>,
    in_flatpak: bool,
    home: Seq<char>,
    user: Seq<char>,
)
    ensures
        ({
            let (write, read) = sbom_paths(digest, in_flatpak, home, user);
            let dir = replaced(digest, ':', '_');
            &&& !dir.contains(':') && dir.len() == digest.len()
            &&& !in_flatpak ==> write == read && write == "/tmp/finupdate/sbom/"@ + dir
            &&& in_flatpak ==> read == home + "/.cache/finupdate/sbom/"@ + dir
            &&& in_flatpak ==> write == "/var/home/"@ + user
                + "/.var/app/org.projectbluefin.Finupdate.Devel/cache/finupdate/sbom/"@ + dir
        }),
{
    let dir = replaced(digest, ':', '_');
    if dir.contains(':') {
        let k = choose|k: int| 0 <= k < dir.len() && dir[k] == ':';
        assert(digest[k] == ':');
    }
}

/// `oras` is looked for by its bare name first, and every place is tried on the host.
pub proof fn law_oras_places(in_flatpak: bool)
    ensures
        oras_places(in_flatpak).len() > 0,
        oras_places(in_flatpak)[0] == "oras"@,
        oras_places(in_flatpak).contains("/usr/bin/oras"@),
        oras_places(in_flatpak).contains("/usr/local/bin/oras"@),
        oras_places(in_flatpak).contains("/home/linuxbrew/.linuxbrew/bin/oras"@),
{
    let places = oras_places(in_flatpak);
    assert(places[1] == "/home/linuxbrew/.linuxbrew/bin/oras"@);
    let n = places.len() as int;
    assert(places[n - 1] == "/usr/bin/oras"@);
    assert(places[n - 2] == "/usr/local/bin/oras"@);
}

/// The home and the user decide where documents lie; without them a common home and user
/// are taken.
pub proof fn law_sbom_places(
    digest: Seq<char>,
    in_flatpak: bool,
    home: Seq<char>,
    user: Seq<char>,
)
    ensures
        sbom_places(digest, in_flatpak, Some(home), Some(user)) == sbom_paths(
            digest,
            in_flatpak,
            home,
            user,
        ),
        sbom_places(digest, in_flatpak, None, Some(user)) == sbom_paths(
            digest,
            in_flatpak,
            "/home/james"@,
            user,
        ),
        sbom_places(digest, in_flatpak, Some(home), None) == sbom_paths(
            digest,
            in_flatpak,
            home,
            "james"@,
        ),
{
}

/// The program is tried at each of its places, in their order, with the same arguments.
pub proof fn law_oras_lines(
    in_flatpak: bool,
    args: Seq<Seq<char>>,
    image_ref: Seq<char>,
    directory: Seq<char>,
    reference: Seq<char>,
    i: int,
)
    requires
        0 <= i < oras_places(in_flatpak).len(),
    ensures
        oras_lines(in_flatpak, args).len() == oras_places(in_flatpak).len(),
        oras_lines(in_flatpak, args)[i] == on_host(in_flatpak, oras_places(in_flatpak)[i], args),
        discover_lines(in_flatpak, image_ref)[i] == on_host(
            in_flatpak,
            oras_places(in_flatpak)[i],
            seq!["discover"@, "--format"@, "json"@, "--depth"@, "1"@, image_ref],
        ),
        pull_lines(in_flatpak, directory, reference)[i] == on_host(
            in_flatpak,
            oras_places(in_flatpak)[i],
            seq!["pull"@, "--output"@, directory, reference],
        ),
{
}

} // verus!
