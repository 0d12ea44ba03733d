//! Product families: which images belong together, and which features tell them
//! apart.

use crate::text::{
    begins_with, lemma_insert_ascending, lemma_split_nonempty, lex_le, split, split_char, str_eq,
    str_le, strictly_ascending, strip_prefix, views,
};
use vstd::multiset::Multiset;
use vstd::prelude::*;

verus! {

/// One product family: a set of sibling image names and the streams under which
/// they are published.
///
/// An image can belong to more than one family: Bluefin Stable and Bluefin LTS
/// share their images and differ in their streams.
#[derive(Debug, Clone, PartialEq)]
pub struct Family {
    /// Name for menus, such as "Bluefin Stable".
    pub name: &'static str,
    /// Registry organisation that owns every image of the family.
    pub org: &'static str,
    /// Sibling image names. The first is the base of all others.
    pub images: Vec<&'static str>,
    /// Streams that the family publishes under. The first is the default.
    pub streams: Vec<&'static str>,
}

/// What a family holds.
#[verifier::ext_equal]
pub struct FamilyView {
    pub name: Seq<char>,
    pub org: Seq<char>,
    pub images: Seq<Seq<char>>,
    pub streams: Seq<Seq<char>>,
}

impl View for Family {
    type V = FamilyView;

    open spec fn view(&self) -> FamilyView {
        FamilyView {
            name: self.name@,
            org: self.org@,
            images: views(self.images@),
            streams: views(self.streams@),
        }
    }
}

/// The views of a list of families.
pub open spec fn family_views(list: Seq<Family>) -> Seq<FamilyView> {
    list.map_values(|f: Family| f@)
}

/// The Bluefin Stable family.
pub open spec fn bluefin_stable() -> FamilyView {
    FamilyView {
        name: "Bluefin Stable"@,
        org: "ublue-os"@,
        images: seq![
            "bluefin"@,
            "bluefin-nvidia"@,
            "bluefin-nvidia-open"@,
            "bluefin-dx"@,
            "bluefin-dx-nvidia"@,
            "bluefin-dx-nvidia-open"@,
            "bluefin-asus"@,
            "bluefin-asus-nvidia"@,
            "bluefin-surface"@,
            "bluefin-framework"@,
        ],
        streams: seq!["latest"@, "stable"@, "stable-daily"@, "beta"@, "gts"@],
    }
}

/// The Bluefin LTS family.
pub open spec fn bluefin_lts() -> FamilyView {
    FamilyView {
        name: "Bluefin LTS"@,
        org: "ublue-os"@,
        images: seq![
            "bluefin"@,
            "bluefin-nvidia"@,
            "bluefin-dx"@,
            "bluefin-dx-nvidia"@,
            "bluefin-gdx"@,
        ],
        streams: seq!["lts"@, "lts-hwe"@, "lts-amd64"@, "lts-arm64"@, "gdx"@],
    }
}

/// The Aurora family.
pub open spec fn aurora() -> FamilyView {
    FamilyView {
        name: "Aurora"@,
        org: "ublue-os"@,
        images: seq![
            "aurora"@,
            "aurora-nvidia"@,
            "aurora-nvidia-open"@,
            "aurora-dx"@,
            "aurora-dx-nvidia"@,
            "aurora-dx-nvidia-open"@,
        ],
        streams: seq!["latest"@, "stable"@, "stable-daily"@, "beta"@],
    }
}

/// The Bazzite KDE family.
pub open spec fn bazzite_kde() -> FamilyView {
    FamilyView {
        name: "Bazzite KDE"@,
        org: "ublue-os"@,
        images: seq![
            "bazzite"@,
            "bazzite-nvidia"@,
            "bazzite-nvidia-open"@,
            "bazzite-deck"@,
            "bazzite-deck-nvidia"@,
            "bazzite-asus"@,
            "bazzite-framework"@,
        ],
        streams: seq!["stable"@, "testing"@, "unstable"@, "latest"@],
    }
}

/// The Bazzite GNOME family.
pub open spec fn bazzite_gnome() -> FamilyView {
    FamilyView {
        name: "Bazzite GNOME"@,
        org: "ublue-os"@,
        images: seq![
            "bazzite-gnome"@,
            "bazzite-gnome-nvidia"@,
        ],
        streams: seq!["stable"@, "testing"@, "unstable"@, "latest"@],
    }
}

/// The ucore family.
pub open spec fn ucore() -> FamilyView {
    FamilyView {
        name: "ucore"@,
        org: "ublue-os"@,
        images: seq![
            "ucore"@,
            "ucore-hci"@,
            "ucore-zfs"@,
        ],
        streams: seq!["stable"@, "testing"@, "latest"@],
    }
}

/// The Bluefin Dakota family.
pub open spec fn bluefin_dakota() -> FamilyView {
    FamilyView {
        name: "Bluefin Dakota"@,
        org: "projectbluefin"@,
        images: seq![
            "dakota"@,
            "dakota-nvidia"@,
            "dakota-dx"@,
            "dakota-dx-nvidia"@,
        ],
        streams: seq!["latest"@],
    }
}

/// Every known product family, in the order in which they are preferred.
pub open spec fn catalogue() -> Seq<FamilyView> {
    seq![
        bluefin_stable(),
        bluefin_lts(),
        aurora(),
        bazzite_kde(),
        bazzite_gnome(),
        ucore(),
        bluefin_dakota(),
    ]
}

fn new_bluefin_stable() -> (res: Family)
    ensures
        res@ == bluefin_stable(),
{
    let f = Family {
        name: "Bluefin Stable",
        org: "ublue-os",
        images: vec![
            "bluefin",
            "bluefin-nvidia",
            "bluefin-nvidia-open",
            "bluefin-dx",
            "bluefin-dx-nvidia",
            "bluefin-dx-nvidia-open",
            "bluefin-asus",
            "bluefin-asus-nvidia",
            "bluefin-surface",
            "bluefin-framework",
        ],
        streams: vec!["latest", "stable", "stable-daily", "beta", "gts"],
    };
    assert(f@.images =~= bluefin_stable().images);
    assert(f@.streams =~= bluefin_stable().streams);
    f
}

fn new_bluefin_lts() -> (res: Family)
    ensures
        res@ == bluefin_lts(),
{
    let f = Family {
        name: "Bluefin LTS",
        org: "ublue-os",
        images: vec![
            "bluefin",
            "bluefin-nvidia",
            "bluefin-dx",
            "bluefin-dx-nvidia",
            "bluefin-gdx",
        ],
        streams: vec!["lts", "lts-hwe", "lts-amd64", "lts-arm64", "gdx"],
    };
    assert(f@.images =~= bluefin_lts().images);
    assert(f@.streams =~= bluefin_lts().streams);
    f
}

fn new_aurora() -> (res: Family)
    ensures
        res@ == aurora(),
{
    let f = Family {
        name: "Aurora",
        org: "ublue-os",
        images: vec![
            "aurora",
            "aurora-nvidia",
            "aurora-nvidia-open",
            "aurora-dx",
            "aurora-dx-nvidia",
            "aurora-dx-nvidia-open",
        ],
        streams: vec!["latest", "stable", "stable-daily", "beta"],
    };
    assert(f@.images =~= aurora().images);
    assert(f@.streams =~= aurora().streams);
    f
}

fn new_bazzite_kde() -> (res: Family)
    ensures
        res@ == bazzite_kde(),
{
    let f = Family {
        name: "Bazzite KDE",
        org: "ublue-os",
        images: vec![
            "bazzite",
            "bazzite-nvidia",
            "bazzite-nvidia-open",
            "bazzite-deck",
            "bazzite-deck-nvidia",
            "bazzite-asus",
            "bazzite-framework",
        ],
        streams: vec!["stable", "testing", "unstable", "latest"],
    };
    assert(f@.images =~= bazzite_kde().images);
    assert(f@.streams =~= bazzite_kde().streams);
    f
}

fn new_bazzite_gnome() -> (res: Family)
    ensures
        res@ == bazzite_gnome(),
{
    let f = Family {
        name: "Bazzite GNOME",
        org: "ublue-os",
        images: vec![
            "bazzite-gnome",
            "bazzite-gnome-nvidia",
        ],
        streams: vec!["stable", "testing", "unstable", "latest"],
    };
    assert(f@.images =~= bazzite_gnome().images);
    assert(f@.streams =~= bazzite_gnome().streams);
    f
}

fn new_ucore() -> (res: Family)
    ensures
        res@ == ucore(),
{
    let f = Family {
        name: "ucore",
        org: "ublue-os",
        images: vec![
            "ucore",
            "ucore-hci",
            "ucore-zfs",
        ],
        streams: vec!["stable", "testing", "latest"],
    };
    assert(f@.images =~= ucore().images);
    assert(f@.streams =~= ucore().streams);
    f
}

fn new_bluefin_dakota() -> (res: Family)
    ensures
        res@ == bluefin_dakota(),
{
    let f = Family {
        name: "Bluefin Dakota",
        org: "projectbluefin",
        images: vec![
            "dakota",
            "dakota-nvidia",
            "dakota-dx",
            "dakota-dx-nvidia",
        ],
        streams: vec!["latest"],
    };
    assert(f@.images =~= bluefin_dakota().images);
    assert(f@.streams =~= bluefin_dakota().streams);
    f
}

/// The catalogue of product families. New families and variants are added here.
pub fn known_families() -> (res: Vec<Family>)
    ensures
        family_views(res@) == catalogue(),
{
    let res = vec![
        new_bluefin_stable(),
        new_bluefin_lts(),
        new_aurora(),
        new_bazzite_kde(),
        new_bazzite_gnome(),
        new_ucore(),
        new_bluefin_dakota(),
    ];
    assert(family_views(res@) =~= catalogue());
    res
}

/// Families that hold `image` under `org`.
pub open spec fn holds_image(org: Seq<char>, image: Seq<char>) -> spec_fn(FamilyView) -> bool {
    |f: FamilyView| f.org == org && f.images.contains(image)
}

/// Families that publish under `stream`.
pub open spec fn publishes(stream: Seq<char>) -> spec_fn(FamilyView) -> bool {
    |f: FamilyView| f.streams.contains(stream)
}

/// The first of the candidates that publishes under `stream`; the first of all
/// where none does.
pub open spec fn best_of(candidates: Seq<FamilyView>, stream: Seq<char>) -> Option<FamilyView> {
    let hits = candidates.filter(publishes(stream));
    if hits.len() > 0 {
        Some(hits[0])
    } else if candidates.len() > 0 {
        Some(candidates[0])
    } else {
        None
    }
}

/// Whether a list of strings holds `x`.
pub fn holds_text(list: &Vec<&str>, x: &str) -> (res: bool)
    ensures
        res == views(list@).contains(x@),
{
    let mut i: usize = 0;
    while i < list.len()
        invariant
            i <= list@.len(),
            forall|j: int| 0 <= j < i ==> #[trigger] views(list@)[j] != x@,
        decreases list@.len() - i,
    {
        if str_eq(list[i], x) {
            assert(views(list@)[i as int] == x@);
            return true;
        }
        i = i + 1;
    }
    false
}

impl FamilyView {
    /// The name that all images of the family are derived from.
    pub open spec fn base_image(self) -> Seq<char> {
        if self.images.len() > 0 {
            self.images[0]
        } else {
            Seq::empty()
        }
    }

    /// The image is the base with features added behind a dash.
    pub open spec fn derived(self, image: Seq<char>) -> bool {
        image != self.base_image() && begins_with(image, self.base_image().push('-'))
    }

    /// The features that a derived image adds to the base.
    pub open spec fn features_of(self, image: Seq<char>) -> Seq<Seq<char>> {
        split(image.skip(self.base_image().len() as int + 1), '-')
    }

    /// Some image of the family adds this feature.
    pub open spec fn has_feature(self, feature: Seq<char>) -> bool {
        exists|i: int|
            0 <= i < self.images.len() && self.derived(#[trigger] self.images[i])
                && self.features_of(self.images[i]).contains(feature)
    }

    /// The image adds exactly these features, in any order.
    pub open spec fn adds_exactly(self, image: Seq<char>, features: Multiset<Seq<char>>) -> bool {
        self.derived(image) && self.features_of(image).to_multiset() == features
    }

    /// The test that an image adds exactly these features.
    pub open spec fn adding(self, features: Multiset<Seq<char>>) -> spec_fn(Seq<char>) -> bool {
        |image: Seq<char>| self.adds_exactly(image, features)
    }

    /// The first image with exactly these features.
    pub open spec fn select(self, features: Seq<Seq<char>>) -> Option<Seq<char>> {
        if features.len() == 0 {
            if self.images.len() > 0 {
                Some(self.images[0])
            } else {
                None
            }
        } else {
            let hits = self.images.filter(self.adding(features.to_multiset()));
            if hits.len() > 0 {
                Some(hits[0])
            } else {
                None
            }
        }
    }
}

/// Puts `x` into the ascending list, unless it is there already.
fn insert_ascending(list: &mut Vec<&'static str>, x: &'static str)
    requires
        strictly_ascending(views(old(list)@)),
    ensures
        strictly_ascending(views(final(list)@)),
        forall|y: Seq<char>| #[trigger]
            views(final(list)@).contains(y) <==> views(old(list)@).contains(y) || y == x@,
{
    let ghost before = views(list@);
    let mut at: usize = 0;
    while at < list.len() && !str_le(x, list[at])
        invariant
            at <= list@.len(),
            before == views(list@),
            forall|j: int| 0 <= j < at ==> !lex_le(x@, #[trigger] before[j]),
        decreases list@.len() - at,
    {
        at = at + 1;
    }
    if at < list.len() && str_eq(x, list[at]) {
        assert(before[at as int] == x@);
        return;
    }
    proof {
        if at < before.len() {
            assert(before[at as int] == list@[at as int]@);
        }
    }
    list.insert(at, x);
    proof {
        assert(views(list@) =~= before.insert(at as int, x@));
        lemma_insert_ascending(before, at as int, x@);
    }
}

/// Whether two lists hold the same strings, each as often, in any order.
fn same_contents(have: &Vec<&str>, want: &[&str]) -> (res: bool)
    ensures
        res == (views(have@).to_multiset() == views(want@).to_multiset()),
{
    broadcast use vstd::seq_lib::group_to_multiset_ensures;

    let mut rest: Vec<&str> = Vec::new();
    let mut k: usize = 0;
    while k < want.len()
        invariant
            k <= want@.len(),
            rest@ == want@.take(k as int),
        decreases want@.len() - k,
    {
        rest.push(want[k]);
        assert(rest@ =~= want@.take(k + 1));
        k = k + 1;
    }
    assert(rest@ =~= want@);
    let ghost all = views(want@).to_multiset();
    let mut i: usize = 0;
    proof {
        assert(views(have@).take(0) =~= Seq::empty());
        assert(Seq::<Seq<char>>::empty().to_multiset().len() == 0);
        assert(views(have@).take(0).to_multiset().add(views(rest@).to_multiset()) =~= all);
    }
    while i < have.len()
        invariant
            i <= have@.len(),
            all == views(want@).to_multiset(),
            views(have@).take(i as int).to_multiset().add(views(rest@).to_multiset()) == all,
        decreases have@.len() - i,
    {
        let ghost done = views(have@).take(i as int);
        let ghost x = views(have@)[i as int];
        let mut at: usize = 0;
        while at < rest.len() && !str_eq(have[i], rest[at])
            invariant
                i < have@.len(),
                x == views(have@)[i as int],
                at <= rest@.len(),
                forall|j: int| 0 <= j < at ==> #[trigger] views(rest@)[j] != x,
            decreases rest@.len() - at,
        {
            at = at + 1;
        }
        proof {
            assert(views(have@).take(i + 1) =~= done.push(x));
        }
        if at == rest.len() {
            proof {
                broadcast use vstd::seq_lib::group_to_multiset_ensures;

                assert(!views(rest@).contains(x));
                assert(views(rest@).to_multiset().count(x) == 0);
                assert(all.count(x) == done.to_multiset().count(x));
                lemma_prefix_counts(views(have@), i + 1, x);
                assert(views(have@).to_multiset().count(x) >= done.push(x).to_multiset().count(x));
            }
            return false;
        }
        let ghost before = views(rest@);
        rest.remove(at);
        proof {
            broadcast use vstd::seq_lib::group_to_multiset_ensures;

            assert(views(rest@) =~= before.remove(at as int));
            assert(before[at as int] == x);
            assert(before.contains(x));
            assert(before.to_multiset().count(x) > 0);
            assert(views(have@).take(i + 1).to_multiset().add(views(rest@).to_multiset()) =~= all);
        }
        i = i + 1;
    }
    proof {
        assert(views(have@).take(i as int) =~= views(have@));
        if rest@.len() == 0 {
            assert(views(rest@).to_multiset().len() == 0);
            assert(views(have@).to_multiset() =~= all);
        } else {
            assert(views(rest@).to_multiset().len() > 0);
            assert(all.len() == views(have@).to_multiset().len() + views(rest@).to_multiset().len());
        }
    }
    rest.len() == 0
}

proof fn lemma_prefix_counts(s: Seq<Seq<char>>, n: int, x: Seq<char>)
    requires
        0 <= n <= s.len(),
    ensures
        s.take(n).to_multiset().count(x) <= s.to_multiset().count(x),
    decreases s.len() - n,
{
    broadcast use vstd::seq_lib::group_to_multiset_ensures;

    if n == s.len() {
        assert(s.take(n) =~= s);
    } else {
        lemma_prefix_counts(s, n + 1, x);
        assert(s.take(n + 1) =~= s.take(n).push(s[n]));
    }
}

impl Family {
    /// Every known family that holds `image` under `org`, in catalogue order.
    pub fn all_for_image(org: &str, image: &str) -> (res: Vec<Family>)
        ensures
            family_views(res@) == catalogue().filter(holds_image(org@, image@)),
    {
        let known = known_families();
        let ghost all = family_views(known@);
        let ghost list = known@;
        let ghost test = holds_image(org@, image@);
        let mut out: Vec<Family> = Vec::new();
        proof {
            reveal(Seq::filter);
            assert(family_views(out@) =~= all.take(0).filter(test));
        }
        for f in it: known.into_iter()
            invariant
                it.seq() == list,
                all == family_views(list),
                test == holds_image(org@, image@),
                family_views(out@) == all.take(it.index() as int).filter(test),
        {
            let ghost i = it.index() as int;
            let ghost before = out@;
            proof {
                reveal(Seq::filter);
                assert(all.take(i + 1).drop_last() =~= all.take(i));
                assert(all.take(i + 1).last() == f@);
            }
            if str_eq(f.org, org) && holds_text(&f.images, image) {
                out.push(f);
                assert(family_views(out@) =~= family_views(before).push(f@));
            }
        }
        assert(all.take(all.len() as int) =~= all);
        out
    }

    /// The family of an image on a stream: the first known family of the image that
    /// publishes under the stream, else the first of the image at all.
    pub fn best_match(org: &str, image: &str, stream: &str) -> (res: Option<Family>)
        ensures
            match res {
                Some(f) => best_of(catalogue().filter(holds_image(org@, image@)), stream@) == Some(
                    f@,
                ),
                None => best_of(
                    catalogue().filter(holds_image(org@, image@)),
                    stream@,
                ) is None,
            },
    {
        let candidates = Family::all_for_image(org, image);
        let ghost list = candidates@;
        let ghost all = family_views(list);
        let ghost test = publishes(stream@);
        let mut first: Option<Family> = None;
        let mut hit: Option<Family> = None;
        proof {
            reveal(Seq::filter);
            assert(all.take(0).filter(test).len() == 0);
        }
        for f in it: candidates.into_iter()
            invariant
                it.seq() == list,
                all == family_views(list),
                test == publishes(stream@),
                first is Some <==> it.index() > 0,
                first matches Some(g) ==> g@ == all[0],
                hit is Some <==> all.take(it.index() as int).filter(test).len() > 0,
                hit matches Some(g) ==> g@ == all.take(it.index() as int).filter(test)[0],
        {
            proof {
                let i = it.index() as int;
                reveal(Seq::filter);
                assert(all.take(i + 1).drop_last() =~= all.take(i));
                assert(all.take(i + 1).last() == f@);
            }
            if hit.is_none() && holds_text(&f.streams, stream) {
                if first.is_none() {
                    first = Some(copy_family(&f));
                }
                hit = Some(f);
            } else if first.is_none() {
                first = Some(f);
            }
        }
        assert(all.take(all.len() as int) =~= all);
        if hit.is_some() {
            hit
        } else {
            first
        }
    }

    /// The image that all others of the family are derived from: the first one.
    pub fn base_image(&self) -> (res: &'static str)
        ensures
            res@ == self@.base_image(),
    {
        if self.images.len() > 0 {
            self.images[0]
        } else {
            proof {
                reveal_strlit("");
                assert(""@ =~= Seq::<char>::empty());
            }
            ""
        }
    }

    /// The features of an image of this family; nothing where it is not derived from
    /// the base.
    fn image_features(&self, image: &'static str) -> (res: Option<Vec<&'static str>>)
        ensures
            match res {
                Some(atoms) => self@.derived(image@) && views(atoms@) == self@.features_of(image@),
                None => !self@.derived(image@),
            },
    {
        let base = self.base_image();
        if str_eq(image, base) {
            return None;
        }
        let mut lead: String = base.to_owned();
        lead.append("-");
        proof {
            reveal_strlit("-");
            assert(lead@ =~= base@.push('-'));
        }
        match strip_prefix(image, lead.as_str()) {
            Some(suffix) => Some(split_char(suffix, '-')),
            None => None,
        }
    }

    /// The features that tell the images of the family apart, each once, in
    /// alphabetical order. Not every combination of them is published.
    pub fn available_features(&self) -> (res: Vec<&'static str>)
        ensures
            strictly_ascending(views(res@)),
            forall|x: Seq<char>| #[trigger] views(res@).contains(x) <==> self@.has_feature(x),
    {
        let mut out: Vec<&'static str> = Vec::new();
        let mut i: usize = 0;
        while i < self.images.len()
            invariant
                i <= self.images@.len(),
                strictly_ascending(views(out@)),
                forall|x: Seq<char>| #[trigger]
                    views(out@).contains(x) <==> exists|k: int|
                        0 <= k < i && self@.derived(#[trigger] self@.images[k])
                            && self@.features_of(self@.images[k]).contains(x),
            decreases self.images@.len() - i,
        {
            let ghost earlier = views(out@);
            if let Some(atoms) = self.image_features(self.images[i]) {
                let mut j: usize = 0;
                let ghost all = views(atoms@);
                while j < atoms.len()
                    invariant
                        j <= atoms@.len(),
                        all == views(atoms@),
                        strictly_ascending(views(out@)),
                        forall|x: Seq<char>| #[trigger]
                            views(out@).contains(x) <==> earlier.contains(x) || exists|m: int|
                                0 <= m < j && #[trigger] all[m] == x,
                    decreases atoms@.len() - j,
                {
                    let ghost before = views(out@);
                    insert_ascending(&mut out, atoms[j]);
                    proof {
                        assert forall|x: Seq<char>| #[trigger]
                            views(out@).contains(x) <==> earlier.contains(x) || exists|m: int|
                                0 <= m < j + 1 && #[trigger] all[m] == x by {
                            assert(before.contains(x) <==> earlier.contains(x) || exists|m: int|
                                0 <= m < j && #[trigger] all[m] == x);
                            if x == all[j as int] {
                                assert(views(out@).contains(x));
                            }
                        }
                    }
                    j = j + 1;
                }
                proof {
                    let images = self@.images;
                    assert(images[i as int] == self.images@[i as int]@);
                    assert forall|x: Seq<char>| #[trigger]
                        views(out@).contains(x) <==> exists|k: int|
                            0 <= k < i + 1 && self@.derived(#[trigger] images[k])
                                && self@.features_of(images[k]).contains(x) by {
                        assert(views(out@).contains(x) <==> earlier.contains(x) || all.contains(x));
                        assert(earlier.contains(x) <==> exists|k: int|
                            0 <= k < i && self@.derived(#[trigger] images[k]) && self@.features_of(
                                images[k],
                            ).contains(x));
                        if all.contains(x) {
                            assert(self@.derived(images[i as int]) && self@.features_of(
                                images[i as int],
                            ).contains(x));
                        }
                    }
                }
            } else {
                proof {
                    assert(self@.images[i as int] == self.images@[i as int]@);
                }
            }
            i = i + 1;
        }
        proof {
            assert forall|x: Seq<char>| #[trigger] views(out@).contains(x) <==> self@.has_feature(
                x,
            ) by {}
        }
        out
    }

    /// The image of the family that adds exactly the given features to the base, in
    /// any order; nothing where no such image is published. No features at all select
    /// the base.
    pub fn select_image_for_features(&self, features: &[&str]) -> (res: Option<&'static str>)
        ensures
            match res {
                Some(image) => self@.select(views(features@)) == Some(image@),
                None => self@.select(views(features@)) is None,
            },
    {
        if features.len() == 0 {
            if self.images.len() > 0 {
                return Some(self.images[0]);
            }
            return None;
        }
        let ghost test = self@.adding(views(features@).to_multiset());
        let mut i: usize = 0;
        proof {
            reveal(Seq::filter);
            assert(self@.images.take(0).filter(test).len() == 0);
        }
        while i < self.images.len()
            invariant
                i <= self.images@.len(),
                features@.len() > 0,
                test == self@.adding(views(features@).to_multiset()),
                self@.images.take(i as int).filter(test).len() == 0,
            decreases self.images@.len() - i,
        {
            let image = self.images[i];
            proof {
                reveal(Seq::filter);
                assert(self@.images.take(i + 1).drop_last() =~= self@.images.take(i as int));
                assert(self@.images.take(i + 1).last() == image@);
            }
            if let Some(atoms) = self.image_features(image) {
                if same_contents(&atoms, features) {
                    proof {
                        lemma_first_hit(self@.images, test, i + 1);
                        assert(self@.images.take(i + 1).filter(test)[0] == image@);
                    }
                    return Some(image);
                }
            }
            i = i + 1;
        }
        assert(self@.images.take(i as int) =~= self@.images);
        None
    }
}

/// The first item that passes a test is found in a beginning of the list already.
proof fn lemma_first_hit<T>(s: Seq<T>, test: spec_fn(T) -> bool, n: int)
    requires
        0 <= n <= s.len(),
        s.take(n).filter(test).len() > 0,
    ensures
        s.filter(test).len() > 0,
        s.filter(test)[0] == s.take(n).filter(test)[0],
    decreases s.len() - n,
{
    reveal(Seq::filter);
    if n < s.len() {
        assert(s.take(n + 1).drop_last() =~= s.take(n));
        lemma_first_hit(s, test, n + 1);
    } else {
        assert(s.take(n) =~= s);
    }
}

/// A copy of a list of names.
fn copy_names(names: &Vec<&'static str>) -> (res: Vec<&'static str>)
    ensures
        res@ == names@,
{
    let mut out: Vec<&'static str> = Vec::new();
    let mut i: usize = 0;
    while i < names.len()
        invariant
            i <= names@.len(),
            out@ == names@.take(i as int),
        decreases names@.len() - i,
    {
        out.push(names[i]);
        assert(out@ =~= names@.take(i + 1));
        i = i + 1;
    }
    assert(out@ =~= names@);
    out
}

/// A copy of a family.
fn copy_family(f: &Family) -> (res: Family)
    ensures
        res@ == f@,
{
    Family {
        name: f.name,
        org: f.org,
        images: copy_names(&f.images),
        streams: copy_names(&f.streams),
    }
}

/// The order in which features are named does not matter.
pub proof fn law_selection_order_free(f: FamilyView, a: Seq<Seq<char>>, b: Seq<Seq<char>>)
    requires
        a.to_multiset() == b.to_multiset(),
    ensures
        f.select(a) == f.select(b),
{
    broadcast use vstd::seq_lib::group_to_multiset_ensures;

    assert(a.len() == a.to_multiset().len());
    assert(b.len() == b.to_multiset().len());
}

/// A selected image is one of the family, is the base where no feature was asked
/// for, and otherwise adds exactly the features asked for, each of which the family
/// offers.
pub proof fn law_selection_published(f: FamilyView, features: Seq<Seq<char>>, image: Seq<char>)
    requires
        f.select(features) == Some(image),
    ensures
        f.images.contains(image),
        features.len() == 0 ==> image == f.base_image(),
        features.len() > 0 ==> f.adds_exactly(image, features.to_multiset()),
        forall|x: Seq<char>| #[trigger] features.contains(x) ==> f.has_feature(x),
{
    broadcast use vstd::seq_lib::group_to_multiset_ensures;

    if features.len() == 0 {
        assert(f.images[0] == image);
    } else {
        let test = f.adding(features.to_multiset());
        let hits = f.images.filter(test);
        f.images.lemma_filter_pred(test, 0);
        assert(hits.contains(image));
        f.images.lemma_filter_contains_rev(test, image);
        let i = choose|i: int| 0 <= i < f.images.len() && f.images[i] == image;
        assert forall|x: Seq<char>| #[trigger] features.contains(x) implies f.has_feature(x) by {
            assert(features.to_multiset().count(x) > 0);
            assert(f.features_of(image).to_multiset().count(x) > 0);
            assert(f.features_of(f.images[i]).contains(x));
        }
    }
}

/// Every image derived from the base can be selected by its own features: what is
/// selected adds the same features.
pub proof fn law_published_selectable(f: FamilyView, i: int)
    requires
        0 <= i < f.images.len(),
        f.derived(f.images[i]),
    ensures
        f.select(f.features_of(f.images[i])) matches Some(image) && f.adds_exactly(
            image,
            f.features_of(f.images[i]).to_multiset(),
        ),
{
    let features = f.features_of(f.images[i]);
    let test = f.adding(features.to_multiset());
    lemma_split_nonempty(f.images[i].skip(f.base_image().len() as int + 1), '-');
    f.images.lemma_filter_contains(test, i);
    f.images.lemma_filter_pred(test, 0);
}

/// A feature that the family does not offer selects nothing.
pub proof fn law_unknown_feature_selects_nothing(
    f: FamilyView,
    features: Seq<Seq<char>>,
    x: Seq<char>,
)
    requires
        features.contains(x),
        !f.has_feature(x),
    ensures
        f.select(features) is None,
{
    if f.select(features) is Some {
        law_selection_published(f, features, f.select(features).unwrap());
    }
}

/// The families of an image are the known ones of its organisation that hold it.
pub proof fn law_families_of_image(org: Seq<char>, image: Seq<char>, f: FamilyView)
    ensures
        catalogue().filter(holds_image(org, image)).contains(f) <==> catalogue().contains(f)
            && f.org == org && f.images.contains(image),
{
    let test = holds_image(org, image);
    let hits = catalogue().filter(test);
    if hits.contains(f) {
        let k = choose|k: int| 0 <= k < hits.len() && hits[k] == f;
        catalogue().lemma_filter_pred(test, k);
        catalogue().lemma_filter_contains_rev(test, f);
    }
    if catalogue().contains(f) && f.org == org && f.images.contains(image) {
        let k = choose|k: int| 0 <= k < catalogue().len() && catalogue()[k] == f;
        catalogue().lemma_filter_contains(test, k);
    }
}

/// The best match of an image is a known family that holds the image. There is one
/// exactly where some known family holds it, and it publishes under the stream
/// wherever one of those families does.
pub proof fn law_best_match(org: Seq<char>, image: Seq<char>, stream: Seq<char>)
    ensures
        ({
            let test = holds_image(org, image);
            let best = best_of(catalogue().filter(test), stream);
            &&& best is Some <==> exists|i: int|
                0 <= i < catalogue().len() && test(#[trigger] catalogue()[i])
            &&& best matches Some(f) ==> catalogue().contains(f) && f.org == org
                && f.images.contains(image)
            &&& (exists|i: int|
                0 <= i < catalogue().len() && test(#[trigger] catalogue()[i])
                    && catalogue()[i].streams.contains(stream)) ==> (best matches Some(f)
                && f.streams.contains(stream))
        }),
{
    let test = holds_image(org, image);
    let all = catalogue();
    let candidates = all.filter(test);
    let hits = candidates.filter(publishes(stream));
    if candidates.len() > 0 {
        all.lemma_filter_pred(test, 0);
        assert(candidates.contains(candidates[0]));
        all.lemma_filter_contains_rev(test, candidates[0]);
    }
    if hits.len() > 0 {
        candidates.lemma_filter_pred(publishes(stream), 0);
        assert(hits.contains(hits[0]));
        candidates.lemma_filter_contains_rev(publishes(stream), hits[0]);
        all.lemma_filter_contains_rev(test, hits[0]);
        let k = choose|k: int| 0 <= k < candidates.len() && candidates[k] == hits[0];
        all.lemma_filter_pred(test, k);
    }
    assert forall|i: int| 0 <= i < all.len() && test(#[trigger] all[i]) implies candidates.len()
        > 0 by {
        all.lemma_filter_contains(test, i);
    }
    assert forall|i: int|
        0 <= i < all.len() && test(#[trigger] all[i]) && all[i].streams.contains(
            stream,
        ) implies hits.len() > 0 by {
        all.lemma_filter_contains(test, i);
        let k = choose|k: int| 0 <= k < candidates.len() && candidates[k] == all[i];
        candidates.lemma_filter_contains(publishes(stream), k);
    }
}

/// The best match of an image is the first known family that holds the image in its
/// organisation and publishes under the stream. Where none of those publishes under the
/// stream it is the first that holds the image, and nothing where none does.
pub proof fn law_first_match(org: Seq<char>, image: Seq<char>, stream: Seq<char>)
    ensures
        ({
            let all = catalogue();
            let best = best_of(all.filter(holds_image(org, image)), stream);
            let holds = |i: int| all[i].org == org && all[i].images.contains(image);
            let hit = |i: int| holds(i) && all[i].streams.contains(stream);
            &&& forall|i: int|
                0 <= i < all.len() && (#[trigger] hit(i)) && (forall|j: int|
                    0 <= j < i ==> !(#[trigger] hit(j))) ==> best == Some(all[i])
            &&& (forall|i: int| 0 <= i < all.len() ==> !(#[trigger] hit(i))) ==> forall|i: int|
                0 <= i < all.len() && (#[trigger] holds(i)) && (forall|j: int|
                    0 <= j < i ==> !(#[trigger] holds(j))) ==> best == Some(all[i])
            &&& (forall|i: int| 0 <= i < all.len() ==> !(#[trigger] holds(i))) ==> best is None
        }),
{
    let all = catalogue();
    let test = holds_image(org, image);
    let candidates = all.filter(test);
    let published = publishes(stream);
    let hits = candidates.filter(published);
    let both = |f: FamilyView| test(f) && published(f);
    let holds = |i: int| all[i].org == org && all[i].images.contains(image);
    let hit = |i: int| holds(i) && all[i].streams.contains(stream);
    lemma_filter_twice(all, test, published, both);
    assert forall|i: int|
        0 <= i < all.len() && (#[trigger] hit(i)) && (forall|j: int|
            0 <= j < i ==> !(#[trigger] hit(j))) implies best_of(candidates, stream) == Some(
        all[i],
    ) by {
        assert forall|j: int| 0 <= j < i implies !both(#[trigger] all[j]) by {
            assert(!hit(j));
        }
        lemma_first_passing(all, both, i);
    }
    if forall|i: int| 0 <= i < all.len() ==> !(#[trigger] hit(i)) {
        assert forall|i: int| 0 <= i < all.len() implies !both(#[trigger] all[i]) by {
            assert(!hit(i));
        }
        lemma_none_passing(all, both);
        assert forall|i: int|
            0 <= i < all.len() && (#[trigger] holds(i)) && (forall|j: int|
                0 <= j < i ==> !(#[trigger] holds(j))) implies best_of(candidates, stream) == Some(
            all[i],
        ) by {
            assert forall|j: int| 0 <= j < i implies !test(#[trigger] all[j]) by {
                assert(!holds(j));
            }
            lemma_first_passing(all, test, i);
        }
    }
    if forall|i: int| 0 <= i < all.len() ==> !(#[trigger] holds(i)) {
        assert forall|i: int| 0 <= i < all.len() implies !both(#[trigger] all[i]) && !test(
            all[i],
        ) by {
            assert(!holds(i));
        }
        lemma_none_passing(all, both);
        lemma_none_passing(all, test);
    }
}

proof fn lemma_filter_twice<T>(
    s: Seq<T>,
    first: spec_fn(T) -> bool,
    second: spec_fn(T) -> bool,
    both: spec_fn(T) -> bool,
)
    requires
        forall|x: T| #[trigger] both(x) <==> first(x) && second(x),
    ensures
        s.filter(first).filter(second) == s.filter(both),
    decreases s.len(),
{
    reveal(Seq::filter);
    if s.len() > 0 {
        let front = s.drop_last();
        lemma_filter_twice(front, first, second, both);
        assert(both(s.last()) <==> first(s.last()) && second(s.last()));
        if first(s.last()) {
            assert(s.filter(first).drop_last() =~= front.filter(first));
            assert(s.filter(first).last() == s.last());
        }
    } else {
        assert(s.filter(first) =~= s);
        assert(s.filter(both) =~= s);
    }
}

/// The first item that passes a test is the first of those that pass.
pub proof fn lemma_first_passing<T>(s: Seq<T>, test: spec_fn(T) -> bool, j: int)
    requires
        0 <= j < s.len(),
        test(s[j]),
        forall|i: int| 0 <= i < j ==> !test(#[trigger] s[i]),
    ensures
        s.filter(test).len() > 0,
        s.filter(test)[0] == s[j],
    decreases s.len(),
{
    reveal(Seq::filter);
    let front = s.drop_last();
    if j < s.len() - 1 {
        assert forall|i: int| 0 <= i < j implies !test(#[trigger] front[i]) by {
            assert(front[i] == s[i]);
        }
        lemma_first_passing(front, test, j);
    } else {
        assert forall|i: int| 0 <= i < front.len() implies !test(#[trigger] front[i]) by {
            assert(front[i] == s[i]);
        }
        lemma_none_passing(front, test);
    }
}

/// Where no item passes a test, none is left.
pub proof fn lemma_none_passing<T>(s: Seq<T>, test: spec_fn(T) -> bool)
    requires
        forall|i: int| 0 <= i < s.len() ==> !test(#[trigger] s[i]),
    ensures
        s.filter(test).len() == 0,
    decreases s.len(),
{
    reveal(Seq::filter);
    if s.len() > 0 {
        let front = s.drop_last();
        assert forall|i: int| 0 <= i < front.len() implies !test(#[trigger] front[i]) by {
            assert(front[i] == s[i]);
        }
        lemma_none_passing(front, test);
    }
}

/// The known families, with their publishers, their base images and their streams.
pub proof fn law_known_families()
    ensures
        catalogue().len() == 7,
        catalogue()[0].name == "Bluefin Stable"@ && catalogue()[0].org == "ublue-os"@,
        catalogue()[0].images[0] == "bluefin"@,
        catalogue()[0].streams == seq!["latest"@, "stable"@, "stable-daily"@, "beta"@, "gts"@],
        catalogue()[1].name == "Bluefin LTS"@ && catalogue()[1].org == "ublue-os"@,
        catalogue()[1].images[0] == "bluefin"@,
        catalogue()[1].streams == seq!["lts"@, "lts-hwe"@, "lts-amd64"@, "lts-arm64"@, "gdx"@],
        catalogue()[2].name == "Aurora"@ && catalogue()[2].org == "ublue-os"@,
        catalogue()[2].images[0] == "aurora"@,
        catalogue()[2].streams == seq!["latest"@, "stable"@, "stable-daily"@, "beta"@],
        catalogue()[3].name == "Bazzite KDE"@ && catalogue()[3].org == "ublue-os"@,
        catalogue()[3].images[0] == "bazzite"@,
        catalogue()[3].streams == seq!["stable"@, "testing"@, "unstable"@, "latest"@],
        catalogue()[4].name == "Bazzite GNOME"@ && catalogue()[4].org == "ublue-os"@,
        catalogue()[4].images[0] == "bazzite-gnome"@,
        catalogue()[4].streams == seq!["stable"@, "testing"@, "unstable"@, "latest"@],
        catalogue()[5].name == "ucore"@ && catalogue()[5].org == "ublue-os"@,
        catalogue()[5].images[0] == "ucore"@,
        catalogue()[5].streams == seq!["stable"@, "testing"@, "latest"@],
        catalogue()[6].name == "Bluefin Dakota"@ && catalogue()[6].org == "projectbluefin"@,
        catalogue()[6].images[0] == "dakota"@,
        catalogue()[6].streams == seq!["latest"@],
{
}

} // verus!
