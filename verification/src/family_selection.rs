//! Every published image can be reached by switching features.

use crate::family::{
    aurora, bazzite_gnome, bazzite_kde, bluefin_dakota, bluefin_lts, bluefin_stable, catalogue,
    law_selection_published, ucore, FamilyView,
};
use crate::text::{
    join, law_join_split, law_split_join, law_split_pieces_free, lemma_split_nonempty,
};
use vstd::prelude::*;

verus! {

/// The names of the features hold no dash.
proof fn lemma_plain_names()
    ensures
        !"asus"@.contains('-'),
        !"deck"@.contains('-'),
        !"dx"@.contains('-'),
        !"framework"@.contains('-'),
        !"gdx"@.contains('-'),
        !"hci"@.contains('-'),
        !"nvidia"@.contains('-'),
        !"open"@.contains('-'),
        !"surface"@.contains('-'),
        !"zfs"@.contains('-'),
{
    reveal_strlit("asus");
    reveal_strlit("deck");
    reveal_strlit("dx");
    reveal_strlit("framework");
    reveal_strlit("gdx");
    reveal_strlit("hci");
    reveal_strlit("nvidia");
    reveal_strlit("open");
    reveal_strlit("surface");
    reveal_strlit("zfs");
}

/// The names of the features differ.
proof fn lemma_names_differ()
    ensures
        "asus"@ != "deck"@,
        "asus"@ != "dx"@,
        "asus"@ != "framework"@,
        "asus"@ != "gdx"@,
        "asus"@ != "hci"@,
        "asus"@ != "nvidia"@,
        "asus"@ != "open"@,
        "asus"@ != "surface"@,
        "asus"@ != "zfs"@,
        "deck"@ != "dx"@,
        "deck"@ != "framework"@,
        "deck"@ != "gdx"@,
        "deck"@ != "hci"@,
        "deck"@ != "nvidia"@,
        "deck"@ != "open"@,
        "deck"@ != "surface"@,
        "deck"@ != "zfs"@,
        "dx"@ != "framework"@,
        "dx"@ != "gdx"@,
        "dx"@ != "hci"@,
        "dx"@ != "nvidia"@,
        "dx"@ != "open"@,
        "dx"@ != "surface"@,
        "dx"@ != "zfs"@,
        "framework"@ != "gdx"@,
        "framework"@ != "hci"@,
        "framework"@ != "nvidia"@,
        "framework"@ != "open"@,
        "framework"@ != "surface"@,
        "framework"@ != "zfs"@,
        "gdx"@ != "hci"@,
        "gdx"@ != "nvidia"@,
        "gdx"@ != "open"@,
        "gdx"@ != "surface"@,
        "gdx"@ != "zfs"@,
        "hci"@ != "nvidia"@,
        "hci"@ != "open"@,
        "hci"@ != "surface"@,
        "hci"@ != "zfs"@,
        "nvidia"@ != "open"@,
        "nvidia"@ != "surface"@,
        "nvidia"@ != "zfs"@,
        "open"@ != "surface"@,
        "open"@ != "zfs"@,
        "surface"@ != "zfs"@,
{
    reveal_strlit("asus");
    reveal_strlit("deck");
    reveal_strlit("dx");
    reveal_strlit("framework");
    reveal_strlit("gdx");
    reveal_strlit("hci");
    reveal_strlit("nvidia");
    reveal_strlit("open");
    reveal_strlit("surface");
    reveal_strlit("zfs");
    assert("asus"@[0] != "deck"@[0]);
    assert("asus"@.len() != "dx"@.len());
    assert("asus"@.len() != "framework"@.len());
    assert("asus"@.len() != "gdx"@.len());
    assert("asus"@.len() != "hci"@.len());
    assert("asus"@.len() != "nvidia"@.len());
    assert("asus"@[0] != "open"@[0]);
    assert("asus"@.len() != "surface"@.len());
    assert("asus"@.len() != "zfs"@.len());
    assert("deck"@.len() != "dx"@.len());
    assert("deck"@.len() != "framework"@.len());
    assert("deck"@.len() != "gdx"@.len());
    assert("deck"@.len() != "hci"@.len());
    assert("deck"@.len() != "nvidia"@.len());
    assert("deck"@[0] != "open"@[0]);
    assert("deck"@.len() != "surface"@.len());
    assert("deck"@.len() != "zfs"@.len());
    assert("dx"@.len() != "framework"@.len());
    assert("dx"@.len() != "gdx"@.len());
    assert("dx"@.len() != "hci"@.len());
    assert("dx"@.len() != "nvidia"@.len());
    assert("dx"@.len() != "open"@.len());
    assert("dx"@.len() != "surface"@.len());
    assert("dx"@.len() != "zfs"@.len());
    assert("framework"@.len() != "gdx"@.len());
    assert("framework"@.len() != "hci"@.len());
    assert("framework"@.len() != "nvidia"@.len());
    assert("framework"@.len() != "open"@.len());
    assert("framework"@.len() != "surface"@.len());
    assert("framework"@.len() != "zfs"@.len());
    assert("gdx"@[0] != "hci"@[0]);
    assert("gdx"@.len() != "nvidia"@.len());
    assert("gdx"@.len() != "open"@.len());
    assert("gdx"@.len() != "surface"@.len());
    assert("gdx"@[0] != "zfs"@[0]);
    assert("hci"@.len() != "nvidia"@.len());
    assert("hci"@.len() != "open"@.len());
    assert("hci"@.len() != "surface"@.len());
    assert("hci"@[0] != "zfs"@[0]);
    assert("nvidia"@.len() != "open"@.len());
    assert("nvidia"@.len() != "surface"@.len());
    assert("nvidia"@.len() != "zfs"@.len());
    assert("open"@.len() != "surface"@.len());
    assert("open"@.len() != "zfs"@.len());
    assert("surface"@.len() != "zfs"@.len());
}

/// An image is derived from the base with the given features.
pub open spec fn built_from(f: FamilyView, image: Seq<char>, features: Seq<Seq<char>>) -> bool {
    f.derived(image) && f.features_of(image) == features
}

proof fn lemma_built_from(f: FamilyView, image: Seq<char>, features: Seq<Seq<char>>)
    requires
        features.len() > 0,
        forall|i: int| 0 <= i < features.len() ==> !(#[trigger] features[i]).contains('-'),
        image == f.base_image().push('-') + join(features, seq!['-']),
    ensures
        built_from(f, image, features),
{
    let lead = f.base_image().push('-');
    assert(image.take(lead.len() as int) =~= lead);
    assert(image.skip(f.base_image().len() as int + 1) =~= join(features, seq!['-']));
    assert(image.len() > f.base_image().len());
    law_split_join(features, '-');
}

proof fn lemma_other_contents(a: Seq<Seq<char>>, b: Seq<Seq<char>>, x: Seq<char>)
    requires
        a.contains(x) != b.contains(x),
    ensures
        a.to_multiset() != b.to_multiset(),
{
    broadcast use vstd::seq_lib::group_to_multiset_ensures;

    assert(a.contains(x) == (a.to_multiset().count(x) > 0));
    assert(b.contains(x) == (b.to_multiset().count(x) > 0));
}

proof fn lemma_told_apart(a: Seq<Seq<char>>, b: Seq<Seq<char>>, k: int)
    requires
        0 <= k < a.len(),
        forall|i: int| 0 <= i < b.len() ==> #[trigger] b[i] != a[k],
    ensures
        a.to_multiset() != b.to_multiset(),
{
    assert(a.contains(a[k]));
    lemma_other_contents(a, b, a[k]);
}

/// The images of a family behind the base have the listed features, no two the same.
pub open spec fn told_apart(f: FamilyView, features: Seq<Seq<Seq<char>>>) -> bool {
    &&& f.images.len() == features.len() + 1
    &&& forall|i: int|
        0 <= i < features.len() ==> built_from(f, f.images[i + 1], #[trigger] features[i])
    &&& forall|i: int, j: int|
        0 <= i < j < features.len() ==> (#[trigger] features[i]).to_multiset() != (
        #[trigger] features[j]).to_multiset()
}

/// Every image is selected by its own features, each of which the family offers; the
/// base by none.
pub open spec fn reachable(f: FamilyView, image: Seq<char>) -> bool {
    if image == f.base_image() {
        f.select(Seq::empty()) == Some(image)
    } else {
        &&& f.derived(image)
        &&& f.select(f.features_of(image)) == Some(image)
        &&& forall|x: Seq<char>| #[trigger]
            f.features_of(image).contains(x) ==> f.has_feature(x)
    }
}

proof fn lemma_first_passing(s: Seq<Seq<char>>, test: spec_fn(Seq<char>) -> bool, j: int)
    requires
        0 <= j < s.len(),
        test(s[j]),
        forall|i: int| 0 <= i < j ==> !test(#[trigger] s[i]),
    ensures
        s.filter(test).len() > 0,
        s.filter(test)[0] == s[j],
    decreases s.len(),
{
    reveal(Seq::filter);
    let front = s.drop_last();
    if j < s.len() - 1 {
        assert forall|i: int| 0 <= i < j implies !test(#[trigger] front[i]) by {
            assert(front[i] == s[i]);
        }
        lemma_first_passing(front, test, j);
    } else {
        lemma_none_passing(front, test);
    }
}

proof fn lemma_none_passing(s: Seq<Seq<char>>, test: spec_fn(Seq<char>) -> bool)
    requires
        forall|i: int| 0 <= i < s.len() ==> !test(#[trigger] s[i]),
    ensures
        s.filter(test).len() == 0,
    decreases s.len(),
{
    reveal(Seq::filter);
    if s.len() > 0 {
        let front = s.drop_last();
        assert forall|i: int| 0 <= i < front.len() implies !test(#[trigger] front[i]) by {
            assert(front[i] == s[i]);
        }
        lemma_none_passing(front, test);
    }
}

proof fn lemma_reachable(f: FamilyView, features: Seq<Seq<Seq<char>>>, j: int)
    requires
        told_apart(f, features),
        0 <= j < f.images.len(),
    ensures
        reachable(f, f.images[j]),
{
    let image = f.images[j];
    if j > 0 {
        let own = features[j - 1];
        let test = f.adding(own.to_multiset());
        assert(built_from(f, image, own));
        lemma_split_nonempty(image.skip(f.base_image().len() as int + 1), '-');
        assert forall|i: int| 0 <= i < j implies !test(#[trigger] f.images[i]) by {
            if i > 0 {
                assert(built_from(f, f.images[i], features[i - 1]));
                assert(features[i - 1].to_multiset() != own.to_multiset());
            }
        }
        lemma_first_passing(f.images, test, j);
        assert forall|x: Seq<char>| #[trigger]
            f.features_of(image).contains(x) implies f.has_feature(x) by {
            assert(f.derived(f.images[j]));
        }
    }
}

/// The features of the images of Bluefin Stable behind its base.
pub open spec fn bluefin_stable_features() -> Seq<Seq<Seq<char>>> {
    seq![
        seq!["nvidia"@],
        seq!["nvidia"@, "open"@],
        seq!["dx"@],
        seq!["dx"@, "nvidia"@],
        seq!["dx"@, "nvidia"@, "open"@],
        seq!["asus"@],
        seq!["asus"@, "nvidia"@],
        seq!["surface"@],
        seq!["framework"@],
    ]
}

proof fn lemma_bluefin_stable()
    ensures
        told_apart(bluefin_stable(), bluefin_stable_features()),
{
    let f = bluefin_stable();
    let features = bluefin_stable_features();
    lemma_plain_names();
    lemma_names_differ();
    reveal_strlit("asus");
    reveal_strlit("dx");
    reveal_strlit("framework");
    reveal_strlit("nvidia");
    reveal_strlit("open");
    reveal_strlit("surface");
    reveal_strlit("bluefin");
    reveal_strlit("bluefin-nvidia");
    reveal_strlit("bluefin-nvidia-open");
    reveal_strlit("bluefin-dx");
    reveal_strlit("bluefin-dx-nvidia");
    reveal_strlit("bluefin-dx-nvidia-open");
    reveal_strlit("bluefin-asus");
    reveal_strlit("bluefin-asus-nvidia");
    reveal_strlit("bluefin-surface");
    reveal_strlit("bluefin-framework");
    assert(built_from(f, "bluefin-nvidia"@, features[0])) by {
        reveal_with_fuel(join, 2);
        let list = features[0];
        assert("bluefin-nvidia"@ =~= f.base_image().push('-') + join(list, seq!['-']));
        lemma_built_from(f, "bluefin-nvidia"@, list);
    }
    assert(built_from(f, "bluefin-nvidia-open"@, features[1])) by {
        reveal_with_fuel(join, 3);
        let list = features[1];
        assert(list.drop_last() =~= seq!["nvidia"@]);
        assert("bluefin-nvidia-open"@ =~= f.base_image().push('-') + join(list, seq!['-']));
        lemma_built_from(f, "bluefin-nvidia-open"@, list);
    }
    assert(built_from(f, "bluefin-dx"@, features[2])) by {
        reveal_with_fuel(join, 2);
        let list = features[2];
        assert("bluefin-dx"@ =~= f.base_image().push('-') + join(list, seq!['-']));
        lemma_built_from(f, "bluefin-dx"@, list);
    }
    assert(built_from(f, "bluefin-dx-nvidia"@, features[3])) by {
        reveal_with_fuel(join, 3);
        let list = features[3];
        assert(list.drop_last() =~= seq!["dx"@]);
        assert("bluefin-dx-nvidia"@ =~= f.base_image().push('-') + join(list, seq!['-']));
        lemma_built_from(f, "bluefin-dx-nvidia"@, list);
    }
    assert(built_from(f, "bluefin-dx-nvidia-open"@, features[4])) by {
        reveal_with_fuel(join, 4);
        let list = features[4];
        assert(list.drop_last() =~= seq!["dx"@, "nvidia"@]);
        assert(list.drop_last().drop_last() =~= seq!["dx"@]);
        assert("bluefin-dx-nvidia-open"@ =~= f.base_image().push('-') + join(list, seq!['-']));
        lemma_built_from(f, "bluefin-dx-nvidia-open"@, list);
    }
    assert(built_from(f, "bluefin-asus"@, features[5])) by {
        reveal_with_fuel(join, 2);
        let list = features[5];
        assert("bluefin-asus"@ =~= f.base_image().push('-') + join(list, seq!['-']));
        lemma_built_from(f, "bluefin-asus"@, list);
    }
    assert(built_from(f, "bluefin-asus-nvidia"@, features[6])) by {
        reveal_with_fuel(join, 3);
        let list = features[6];
        assert(list.drop_last() =~= seq!["asus"@]);
        assert("bluefin-asus-nvidia"@ =~= f.base_image().push('-') + join(list, seq!['-']));
        lemma_built_from(f, "bluefin-asus-nvidia"@, list);
    }
    assert(built_from(f, "bluefin-surface"@, features[7])) by {
        reveal_with_fuel(join, 2);
        let list = features[7];
        assert("bluefin-surface"@ =~= f.base_image().push('-') + join(list, seq!['-']));
        lemma_built_from(f, "bluefin-surface"@, list);
    }
    assert(built_from(f, "bluefin-framework"@, features[8])) by {
        reveal_with_fuel(join, 2);
        let list = features[8];
        assert("bluefin-framework"@ =~= f.base_image().push('-') + join(list, seq!['-']));
        lemma_built_from(f, "bluefin-framework"@, list);
    }
    lemma_told_apart(features[1], features[0], 1);
    lemma_told_apart(features[0], features[2], 0);
    lemma_told_apart(features[1], features[2], 0);
    lemma_told_apart(features[3], features[0], 0);
    lemma_told_apart(features[1], features[3], 1);
    lemma_told_apart(features[3], features[2], 1);
    lemma_told_apart(features[4], features[0], 0);
    lemma_told_apart(features[4], features[1], 0);
    lemma_told_apart(features[4], features[2], 1);
    lemma_told_apart(features[4], features[3], 2);
    lemma_told_apart(features[0], features[5], 0);
    lemma_told_apart(features[1], features[5], 0);
    lemma_told_apart(features[2], features[5], 0);
    lemma_told_apart(features[3], features[5], 0);
    lemma_told_apart(features[4], features[5], 0);
    lemma_told_apart(features[6], features[0], 0);
    lemma_told_apart(features[1], features[6], 1);
    lemma_told_apart(features[2], features[6], 0);
    lemma_told_apart(features[3], features[6], 0);
    lemma_told_apart(features[4], features[6], 0);
    lemma_told_apart(features[6], features[5], 1);
    lemma_told_apart(features[0], features[7], 0);
    lemma_told_apart(features[1], features[7], 0);
    lemma_told_apart(features[2], features[7], 0);
    lemma_told_apart(features[3], features[7], 0);
    lemma_told_apart(features[4], features[7], 0);
    lemma_told_apart(features[5], features[7], 0);
    lemma_told_apart(features[6], features[7], 0);
    lemma_told_apart(features[0], features[8], 0);
    lemma_told_apart(features[1], features[8], 0);
    lemma_told_apart(features[2], features[8], 0);
    lemma_told_apart(features[3], features[8], 0);
    lemma_told_apart(features[4], features[8], 0);
    lemma_told_apart(features[5], features[8], 0);
    lemma_told_apart(features[6], features[8], 0);
    lemma_told_apart(features[7], features[8], 0);
    assert forall|i: int| 0 <= i < features.len() implies built_from(
        f,
        f.images[i + 1],
        #[trigger] features[i],
    ) by {
        assert(i == 0 || i == 1 || i == 2 || i == 3 || i == 4 || i == 5 || i == 6 || i == 7 || i == 8);
    }
    assert forall|i: int, j: int| 0 <= i < j < features.len() implies (
    #[trigger] features[i]).to_multiset() != (#[trigger] features[j]).to_multiset() by {
        assert(i == 0 || i == 1 || i == 2 || i == 3 || i == 4 || i == 5 || i == 6 || i == 7);
        assert(j == 1 || j == 2 || j == 3 || j == 4 || j == 5 || j == 6 || j == 7 || j == 8);
    }
}

/// The features of the images of Bluefin LTS behind its base.
pub open spec fn bluefin_lts_features() -> Seq<Seq<Seq<char>>> {
    seq![
        seq!["nvidia"@],
        seq!["dx"@],
        seq!["dx"@, "nvidia"@],
        seq!["gdx"@],
    ]
}

proof fn lemma_bluefin_lts()
    ensures
        told_apart(bluefin_lts(), bluefin_lts_features()),
{
    let f = bluefin_lts();
    let features = bluefin_lts_features();
    lemma_plain_names();
    lemma_names_differ();
    reveal_strlit("dx");
    reveal_strlit("gdx");
    reveal_strlit("nvidia");
    reveal_strlit("bluefin");
    reveal_strlit("bluefin-nvidia");
    reveal_strlit("bluefin-dx");
    reveal_strlit("bluefin-dx-nvidia");
    reveal_strlit("bluefin-gdx");
    assert(built_from(f, "bluefin-nvidia"@, features[0])) by {
        reveal_with_fuel(join, 2);
        let list = features[0];
        assert("bluefin-nvidia"@ =~= f.base_image().push('-') + join(list, seq!['-']));
        lemma_built_from(f, "bluefin-nvidia"@, list);
    }
    assert(built_from(f, "bluefin-dx"@, features[1])) by {
        reveal_with_fuel(join, 2);
        let list = features[1];
        assert("bluefin-dx"@ =~= f.base_image().push('-') + join(list, seq!['-']));
        lemma_built_from(f, "bluefin-dx"@, list);
    }
    assert(built_from(f, "bluefin-dx-nvidia"@, features[2])) by {
        reveal_with_fuel(join, 3);
        let list = features[2];
        assert(list.drop_last() =~= seq!["dx"@]);
        assert("bluefin-dx-nvidia"@ =~= f.base_image().push('-') + join(list, seq!['-']));
        lemma_built_from(f, "bluefin-dx-nvidia"@, list);
    }
    assert(built_from(f, "bluefin-gdx"@, features[3])) by {
        reveal_with_fuel(join, 2);
        let list = features[3];
        assert("bluefin-gdx"@ =~= f.base_image().push('-') + join(list, seq!['-']));
        lemma_built_from(f, "bluefin-gdx"@, list);
    }
    lemma_told_apart(features[0], features[1], 0);
    lemma_told_apart(features[2], features[0], 0);
    lemma_told_apart(features[2], features[1], 1);
    lemma_told_apart(features[0], features[3], 0);
    lemma_told_apart(features[1], features[3], 0);
    lemma_told_apart(features[2], features[3], 0);
    assert forall|i: int| 0 <= i < features.len() implies built_from(
        f,
        f.images[i + 1],
        #[trigger] features[i],
    ) by {
        assert(i == 0 || i == 1 || i == 2 || i == 3);
    }
    assert forall|i: int, j: int| 0 <= i < j < features.len() implies (
    #[trigger] features[i]).to_multiset() != (#[trigger] features[j]).to_multiset() by {
        assert(i == 0 || i == 1 || i == 2);
        assert(j == 1 || j == 2 || j == 3);
    }
}

/// The features of the images of Aurora behind its base.
pub open spec fn aurora_features() -> Seq<Seq<Seq<char>>> {
    seq![
        seq!["nvidia"@],
        seq!["nvidia"@, "open"@],
        seq!["dx"@],
        seq!["dx"@, "nvidia"@],
        seq!["dx"@, "nvidia"@, "open"@],
    ]
}

proof fn lemma_aurora()
    ensures
        told_apart(aurora(), aurora_features()),
{
    let f = aurora();
    let features = aurora_features();
    lemma_plain_names();
    lemma_names_differ();
    reveal_strlit("dx");
    reveal_strlit("nvidia");
    reveal_strlit("open");
    reveal_strlit("aurora");
    reveal_strlit("aurora-nvidia");
    reveal_strlit("aurora-nvidia-open");
    reveal_strlit("aurora-dx");
    reveal_strlit("aurora-dx-nvidia");
    reveal_strlit("aurora-dx-nvidia-open");
    assert(built_from(f, "aurora-nvidia"@, features[0])) by {
        reveal_with_fuel(join, 2);
        let list = features[0];
        assert("aurora-nvidia"@ =~= f.base_image().push('-') + join(list, seq!['-']));
        lemma_built_from(f, "aurora-nvidia"@, list);
    }
    assert(built_from(f, "aurora-nvidia-open"@, features[1])) by {
        reveal_with_fuel(join, 3);
        let list = features[1];
        assert(list.drop_last() =~= seq!["nvidia"@]);
        assert("aurora-nvidia-open"@ =~= f.base_image().push('-') + join(list, seq!['-']));
        lemma_built_from(f, "aurora-nvidia-open"@, list);
    }
    assert(built_from(f, "aurora-dx"@, features[2])) by {
        reveal_with_fuel(join, 2);
        let list = features[2];
        assert("aurora-dx"@ =~= f.base_image().push('-') + join(list, seq!['-']));
        lemma_built_from(f, "aurora-dx"@, list);
    }
    assert(built_from(f, "aurora-dx-nvidia"@, features[3])) by {
        reveal_with_fuel(join, 3);
        let list = features[3];
        assert(list.drop_last() =~= seq!["dx"@]);
        assert("aurora-dx-nvidia"@ =~= f.base_image().push('-') + join(list, seq!['-']));
        lemma_built_from(f, "aurora-dx-nvidia"@, list);
    }
    assert(built_from(f, "aurora-dx-nvidia-open"@, features[4])) by {
        reveal_with_fuel(join, 4);
        let list = features[4];
        assert(list.drop_last() =~= seq!["dx"@, "nvidia"@]);
        assert(list.drop_last().drop_last() =~= seq!["dx"@]);
        assert("aurora-dx-nvidia-open"@ =~= f.base_image().push('-') + join(list, seq!['-']));
        lemma_built_from(f, "aurora-dx-nvidia-open"@, list);
    }
    lemma_told_apart(features[1], features[0], 1);
    lemma_told_apart(features[0], features[2], 0);
    lemma_told_apart(features[1], features[2], 0);
    lemma_told_apart(features[3], features[0], 0);
    lemma_told_apart(features[1], features[3], 1);
    lemma_told_apart(features[3], features[2], 1);
    lemma_told_apart(features[4], features[0], 0);
    lemma_told_apart(features[4], features[1], 0);
    lemma_told_apart(features[4], features[2], 1);
    lemma_told_apart(features[4], features[3], 2);
    assert forall|i: int| 0 <= i < features.len() implies built_from(
        f,
        f.images[i + 1],
        #[trigger] features[i],
    ) by {
        assert(i == 0 || i == 1 || i == 2 || i == 3 || i == 4);
    }
    assert forall|i: int, j: int| 0 <= i < j < features.len() implies (
    #[trigger] features[i]).to_multiset() != (#[trigger] features[j]).to_multiset() by {
        assert(i == 0 || i == 1 || i == 2 || i == 3);
        assert(j == 1 || j == 2 || j == 3 || j == 4);
    }
}

/// The features of the images of Bazzite KDE behind its base.
pub open spec fn bazzite_kde_features() -> Seq<Seq<Seq<char>>> {
    seq![
        seq!["nvidia"@],
        seq!["nvidia"@, "open"@],
        seq!["deck"@],
        seq!["deck"@, "nvidia"@],
        seq!["asus"@],
        seq!["framework"@],
    ]
}

proof fn lemma_bazzite_kde()
    ensures
        told_apart(bazzite_kde(), bazzite_kde_features()),
{
    let f = bazzite_kde();
    let features = bazzite_kde_features();
    lemma_plain_names();
    lemma_names_differ();
    reveal_strlit("asus");
    reveal_strlit("deck");
    reveal_strlit("framework");
    reveal_strlit("nvidia");
    reveal_strlit("open");
    reveal_strlit("bazzite");
    reveal_strlit("bazzite-nvidia");
    reveal_strlit("bazzite-nvidia-open");
    reveal_strlit("bazzite-deck");
    reveal_strlit("bazzite-deck-nvidia");
    reveal_strlit("bazzite-asus");
    reveal_strlit("bazzite-framework");
    assert(built_from(f, "bazzite-nvidia"@, features[0])) by {
        reveal_with_fuel(join, 2);
        let list = features[0];
        assert("bazzite-nvidia"@ =~= f.base_image().push('-') + join(list, seq!['-']));
        lemma_built_from(f, "bazzite-nvidia"@, list);
    }
    assert(built_from(f, "bazzite-nvidia-open"@, features[1])) by {
        reveal_with_fuel(join, 3);
        let list = features[1];
        assert(list.drop_last() =~= seq!["nvidia"@]);
        assert("bazzite-nvidia-open"@ =~= f.base_image().push('-') + join(list, seq!['-']));
        lemma_built_from(f, "bazzite-nvidia-open"@, list);
    }
    assert(built_from(f, "bazzite-deck"@, features[2])) by {
        reveal_with_fuel(join, 2);
        let list = features[2];
        assert("bazzite-deck"@ =~= f.base_image().push('-') + join(list, seq!['-']));
        lemma_built_from(f, "bazzite-deck"@, list);
    }
    assert(built_from(f, "bazzite-deck-nvidia"@, features[3])) by {
        reveal_with_fuel(join, 3);
        let list = features[3];
        assert(list.drop_last() =~= seq!["deck"@]);
        assert("bazzite-deck-nvidia"@ =~= f.base_image().push('-') + join(list, seq!['-']));
        lemma_built_from(f, "bazzite-deck-nvidia"@, list);
    }
    assert(built_from(f, "bazzite-asus"@, features[4])) by {
        reveal_with_fuel(join, 2);
        let list = features[4];
        assert("bazzite-asus"@ =~= f.base_image().push('-') + join(list, seq!['-']));
        lemma_built_from(f, "bazzite-asus"@, list);
    }
    assert(built_from(f, "bazzite-framework"@, features[5])) by {
        reveal_with_fuel(join, 2);
        let list = features[5];
        assert("bazzite-framework"@ =~= f.base_image().push('-') + join(list, seq!['-']));
        lemma_built_from(f, "bazzite-framework"@, list);
    }
    lemma_told_apart(features[1], features[0], 1);
    lemma_told_apart(features[0], features[2], 0);
    lemma_told_apart(features[1], features[2], 0);
    lemma_told_apart(features[3], features[0], 0);
    lemma_told_apart(features[1], features[3], 1);
    lemma_told_apart(features[3], features[2], 1);
    lemma_told_apart(features[0], features[4], 0);
    lemma_told_apart(features[1], features[4], 0);
    lemma_told_apart(features[2], features[4], 0);
    lemma_told_apart(features[3], features[4], 0);
    lemma_told_apart(features[0], features[5], 0);
    lemma_told_apart(features[1], features[5], 0);
    lemma_told_apart(features[2], features[5], 0);
    lemma_told_apart(features[3], features[5], 0);
    lemma_told_apart(features[4], features[5], 0);
    assert forall|i: int| 0 <= i < features.len() implies built_from(
        f,
        f.images[i + 1],
        #[trigger] features[i],
    ) by {
        assert(i == 0 || i == 1 || i == 2 || i == 3 || i == 4 || i == 5);
    }
    assert forall|i: int, j: int| 0 <= i < j < features.len() implies (
    #[trigger] features[i]).to_multiset() != (#[trigger] features[j]).to_multiset() by {
        assert(i == 0 || i == 1 || i == 2 || i == 3 || i == 4);
        assert(j == 1 || j == 2 || j == 3 || j == 4 || j == 5);
    }
}

/// The features of the images of Bazzite GNOME behind its base.
pub open spec fn bazzite_gnome_features() -> Seq<Seq<Seq<char>>> {
    seq![
        seq!["nvidia"@],
    ]
}

proof fn lemma_bazzite_gnome()
    ensures
        told_apart(bazzite_gnome(), bazzite_gnome_features()),
{
    let f = bazzite_gnome();
    let features = bazzite_gnome_features();
    lemma_plain_names();
    lemma_names_differ();
    reveal_strlit("nvidia");
    reveal_strlit("bazzite-gnome");
    reveal_strlit("bazzite-gnome-nvidia");
    assert(built_from(f, "bazzite-gnome-nvidia"@, features[0])) by {
        reveal_with_fuel(join, 2);
        let list = features[0];
        assert("bazzite-gnome-nvidia"@ =~= f.base_image().push('-') + join(list, seq!['-']));
        lemma_built_from(f, "bazzite-gnome-nvidia"@, list);
    }
    assert forall|i: int| 0 <= i < features.len() implies built_from(
        f,
        f.images[i + 1],
        #[trigger] features[i],
    ) by {
        assert(i == 0);
    }
}

/// The features of the images of ucore behind its base.
pub open spec fn ucore_features() -> Seq<Seq<Seq<char>>> {
    seq![
        seq!["hci"@],
        seq!["zfs"@],
    ]
}

proof fn lemma_ucore()
    ensures
        told_apart(ucore(), ucore_features()),
{
    let f = ucore();
    let features = ucore_features();
    lemma_plain_names();
    lemma_names_differ();
    reveal_strlit("hci");
    reveal_strlit("zfs");
    reveal_strlit("ucore");
    reveal_strlit("ucore-hci");
    reveal_strlit("ucore-zfs");
    assert(built_from(f, "ucore-hci"@, features[0])) by {
        reveal_with_fuel(join, 2);
        let list = features[0];
        assert("ucore-hci"@ =~= f.base_image().push('-') + join(list, seq!['-']));
        lemma_built_from(f, "ucore-hci"@, list);
    }
    assert(built_from(f, "ucore-zfs"@, features[1])) by {
        reveal_with_fuel(join, 2);
        let list = features[1];
        assert("ucore-zfs"@ =~= f.base_image().push('-') + join(list, seq!['-']));
        lemma_built_from(f, "ucore-zfs"@, list);
    }
    lemma_told_apart(features[0], features[1], 0);
    assert forall|i: int| 0 <= i < features.len() implies built_from(
        f,
        f.images[i + 1],
        #[trigger] features[i],
    ) by {
        assert(i == 0 || i == 1);
    }
    assert forall|i: int, j: int| 0 <= i < j < features.len() implies (
    #[trigger] features[i]).to_multiset() != (#[trigger] features[j]).to_multiset() by {
        assert(i == 0);
        assert(j == 1);
    }
}

/// The features of the images of Bluefin Dakota behind its base.
pub open spec fn bluefin_dakota_features() -> Seq<Seq<Seq<char>>> {
    seq![
        seq!["nvidia"@],
        seq!["dx"@],
        seq!["dx"@, "nvidia"@],
    ]
}

proof fn lemma_bluefin_dakota()
    ensures
        told_apart(bluefin_dakota(), bluefin_dakota_features()),
{
    let f = bluefin_dakota();
    let features = bluefin_dakota_features();
    lemma_plain_names();
    lemma_names_differ();
    reveal_strlit("dx");
    reveal_strlit("nvidia");
    reveal_strlit("dakota");
    reveal_strlit("dakota-nvidia");
    reveal_strlit("dakota-dx");
    reveal_strlit("dakota-dx-nvidia");
    assert(built_from(f, "dakota-nvidia"@, features[0])) by {
        reveal_with_fuel(join, 2);
        let list = features[0];
        assert("dakota-nvidia"@ =~= f.base_image().push('-') + join(list, seq!['-']));
        lemma_built_from(f, "dakota-nvidia"@, list);
    }
    assert(built_from(f, "dakota-dx"@, features[1])) by {
        reveal_with_fuel(join, 2);
        let list = features[1];
        assert("dakota-dx"@ =~= f.base_image().push('-') + join(list, seq!['-']));
        lemma_built_from(f, "dakota-dx"@, list);
    }
    assert(built_from(f, "dakota-dx-nvidia"@, features[2])) by {
        reveal_with_fuel(join, 3);
        let list = features[2];
        assert(list.drop_last() =~= seq!["dx"@]);
        assert("dakota-dx-nvidia"@ =~= f.base_image().push('-') + join(list, seq!['-']));
        lemma_built_from(f, "dakota-dx-nvidia"@, list);
    }
    lemma_told_apart(features[0], features[1], 0);
    lemma_told_apart(features[2], features[0], 0);
    lemma_told_apart(features[2], features[1], 1);
    assert forall|i: int| 0 <= i < features.len() implies built_from(
        f,
        f.images[i + 1],
        #[trigger] features[i],
    ) by {
        assert(i == 0 || i == 1 || i == 2);
    }
    assert forall|i: int, j: int| 0 <= i < j < features.len() implies (
    #[trigger] features[i]).to_multiset() != (#[trigger] features[j]).to_multiset() by {
        assert(i == 0 || i == 1);
        assert(j == 1 || j == 2);
    }
}

/// Every image of a known family is selected by exactly its own features, and the family
/// offers each of them. The base is selected by none.
pub proof fn law_every_image_reachable(k: int, i: int)
    requires
        0 <= k < catalogue().len(),
        0 <= i < catalogue()[k].images.len(),
    ensures
        reachable(catalogue()[k], catalogue()[k].images[i]),
{
    if k == 0 {
        lemma_bluefin_stable();
        lemma_reachable(bluefin_stable(), bluefin_stable_features(), i);
    } else if k == 1 {
        lemma_bluefin_lts();
        lemma_reachable(bluefin_lts(), bluefin_lts_features(), i);
    } else if k == 2 {
        lemma_aurora();
        lemma_reachable(aurora(), aurora_features(), i);
    } else if k == 3 {
        lemma_bazzite_kde();
        lemma_reachable(bazzite_kde(), bazzite_kde_features(), i);
    } else if k == 4 {
        lemma_bazzite_gnome();
        lemma_reachable(bazzite_gnome(), bazzite_gnome_features(), i);
    } else if k == 5 {
        lemma_ucore();
        lemma_reachable(ucore(), ucore_features(), i);
    } else {
        lemma_bluefin_dakota();
        lemma_reachable(bluefin_dakota(), bluefin_dakota_features(), i);
    }
}

/// An image whose name is the base with features behind dashes has these features.
pub proof fn law_image_name_tells_features(
    f: FamilyView,
    image: Seq<char>,
    features: Seq<Seq<char>>,
)
    requires
        f.images.len() > 0,
        features.len() > 0,
        forall|i: int| 0 <= i < features.len() ==> !(#[trigger] features[i]).contains('-'),
        image == f.images[0].push('-') + join(features, seq!['-']),
    ensures
        f.derived(image),
        f.features_of(image) == features,
        f.images.contains(image) ==> forall|x: Seq<char>| #[trigger]
            features.contains(x) ==> f.has_feature(x),
{
    lemma_built_from(f, image, features);
    if f.images.contains(image) {
        let k = choose|k: int| 0 <= k < f.images.len() && f.images[k] == image;
        assert(f.derived(f.images[k]));
    }
}

proof fn lemma_derived_name(f: FamilyView, image: Seq<char>)
    requires
        f.derived(image),
    ensures
        image == f.base_image().push('-') + join(f.features_of(image), seq!['-']),
        f.features_of(image).len() > 0,
        forall|i: int|
            0 <= i < f.features_of(image).len() ==> !(#[trigger] f.features_of(
                image,
            )[i]).contains('-'),
{
    let lead = f.base_image().push('-');
    let rest = image.skip(f.base_image().len() as int + 1);
    law_join_split(rest, '-');
    lemma_split_nonempty(rest, '-');
    assert(image.take(lead.len() as int) =~= lead);
    assert(image =~= lead + rest);
    assert forall|i: int| 0 <= i < f.features_of(image).len() implies !(#[trigger] f.features_of(
        image,
    )[i]).contains('-') by {
        law_split_pieces_free(rest, '-', i);
    }
}

/// The features that a family offers are those behind the dashes of its image names, and
/// no others.
pub proof fn law_features_come_from_names(f: FamilyView, x: Seq<char>)
    requires
        f.images.len() > 0,
        f.has_feature(x),
    ensures
        exists|i: int, features: Seq<Seq<char>>|
            0 <= i < f.images.len() && #[trigger] features.contains(x) && (#[trigger] f.images[i])
                == f.images[0].push('-') + join(features, seq!['-']),
{
    let i = choose|i: int|
        0 <= i < f.images.len() && f.derived(#[trigger] f.images[i]) && f.features_of(
            f.images[i],
        ).contains(x);
    lemma_derived_name(f, f.images[i]);
    let features = f.features_of(f.images[i]);
    assert(features.contains(x));
}

/// What is selected is one of the images, named after the base and exactly the features
/// asked for, in some order; no features select the base itself.
pub proof fn law_selected_name(f: FamilyView, features: Seq<Seq<char>>, image: Seq<char>)
    requires
        f.select(features) == Some(image),
    ensures
        f.images.contains(image),
        features.len() == 0 ==> image == f.images[0],
        features.len() > 0 ==> exists|order: Seq<Seq<char>>|
            #[trigger] order.to_multiset() == features.to_multiset() && image
                == f.images[0].push('-') + join(order, seq!['-']),
{
    law_selection_published(f, features, image);
    if features.len() > 0 {
        lemma_derived_name(f, image);
        let order = f.features_of(image);
        assert(order.to_multiset() == features.to_multiset());
    }
}

/// Features select nothing exactly where no image is named after the base and these
/// features, in whatever order.
pub proof fn law_nothing_selected(f: FamilyView, features: Seq<Seq<char>>, order: Seq<Seq<char>>)
    requires
        features.len() > 0,
        f.select(features) is None,
        f.images.len() > 0,
        order.to_multiset() == features.to_multiset(),
        forall|i: int| 0 <= i < order.len() ==> !(#[trigger] order[i]).contains('-'),
    ensures
        !f.images.contains(f.images[0].push('-') + join(order, seq!['-'])),
{
    broadcast use vstd::seq_lib::group_to_multiset_ensures;

    let image = f.images[0].push('-') + join(order, seq!['-']);
    assert(order.len() == order.to_multiset().len());
    assert(features.len() == features.to_multiset().len());
    if f.images.contains(image) {
        lemma_built_from(f, image, order);
        let k = choose|k: int| 0 <= k < f.images.len() && f.images[k] == image;
        let test = f.adding(features.to_multiset());
        f.images.lemma_filter_contains(test, k);
    }
}

} // verus!
