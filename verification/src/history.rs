//! The version history: which deployments it shows, and how.

use crate::deployment::{deployment_views, DeploymentView, MockDeployment};
use crate::number::{decimal, u64_text};
use crate::text::{byte_cut, byte_prefix, cuttable, law_byte_cut_ascii, str_eq};
use vstd::prelude::*;
use vstd::utf8::{is_ascii_chars, is_ascii_chars_encode_utf8};

verus! {

/// A staged deployment to show where the system reports none.
pub open spec fn sample_staged(title: Seq<char>, image: Seq<char>) -> DeploymentView {
    DeploymentView {
        id: "d-staged"@,
        state: "staged"@,
        title,
        image,
        tag: "43"@,
        digest: "sha256:f4e8c1a6b9d2f5a8c1e4b7d0a3c6f9b2e5a8d1c4f7b0a3e6d9c2f5b8a1e4d7c0"@,
        deployed: "Staged · pending reboot"@,
        deployed_full: "Staged · pending reboot"@,
        size: "2.2 GB"@,
        kernel: "6.14.1-300.fc43.x86_64"@,
        package_count: 1361,
        signer: "fedora-43 (sigstore)"@,
        pinned: false,
    }
}

/// A current deployment to show where the system reports none.
pub open spec fn sample_current(title: Seq<char>, image: Seq<char>) -> DeploymentView {
    DeploymentView {
        id: "d-current"@,
        state: "current"@,
        title,
        image,
        tag: "42"@,
        digest: "sha256:a8c92f1e0b7c3d4f9a2b1e6c8d0f4a5b6c7d8e9f0a1b2c3d4e5f6a7b8c9d0e1f2"@,
        deployed: "3 days ago"@,
        deployed_full: "May 24, 2026 · 14:22 UTC"@,
        size: "2.1 GB"@,
        kernel: "6.13.7-300.fc42.x86_64"@,
        package_count: 1342,
        signer: "fedora-42 (sigstore)"@,
        pinned: false,
    }
}

/// A previous deployment to show where the system reports none.
pub open spec fn sample_previous(title: Seq<char>, image: Seq<char>) -> DeploymentView {
    DeploymentView {
        id: "d-prev"@,
        state: "previous"@,
        title,
        image,
        tag: "42"@,
        digest: "sha256:b3e1188fd91a7eaa0c6c8c4f1d8e9a7b6c5d4e3f2a1b0c9d8e7f6a5b4c3d2e1f0"@,
        deployed: "11 days ago"@,
        deployed_full: "May 16, 2026 · 09:08 UTC"@,
        size: "2.0 GB"@,
        kernel: "6.13.4-200.fc42.x86_64"@,
        package_count: 1338,
        signer: "fedora-42 (sigstore)"@,
        pinned: true,
    }
}

/// A archived deployment to show where the system reports none.
pub open spec fn sample_archived(title: Seq<char>, image: Seq<char>) -> DeploymentView {
    DeploymentView {
        id: "d-arch"@,
        state: "archived"@,
        title,
        image,
        tag: "41"@,
        digest: "sha256:c0d22a4e6b8d1f3a5c7e9b0d2f4a6c8e0b1d3f5a7c9e1b3d5f7a9c1e3b5d7f9a0"@,
        deployed: "6 weeks ago"@,
        deployed_full: "Apr 15, 2026 · 18:51 UTC"@,
        size: "1.9 GB"@,
        kernel: "6.12.9-100.fc41.x86_64"@,
        package_count: 1297,
        signer: "fedora-41 (sigstore)"@,
        pinned: false,
    }
}

fn new_sample_staged(title: &str, image: &str) -> (res: MockDeployment)
    ensures
        res@ == sample_staged(title@, image@),
{
    MockDeployment {
        id: "d-staged".to_owned(),
        state: "staged".to_owned(),
        title: title.to_owned(),
        image: image.to_owned(),
        tag: "43".to_owned(),
        digest: "sha256:f4e8c1a6b9d2f5a8c1e4b7d0a3c6f9b2e5a8d1c4f7b0a3e6d9c2f5b8a1e4d7c0".to_owned(),
        deployed: "Staged · pending reboot".to_owned(),
        deployed_full: "Staged · pending reboot".to_owned(),
        size: "2.2 GB".to_owned(),
        kernel: "6.14.1-300.fc43.x86_64".to_owned(),
        package_count: 1361,
        signer: "fedora-43 (sigstore)".to_owned(),
        pinned: false,
    }
}

fn new_sample_current(title: &str, image: &str) -> (res: MockDeployment)
    ensures
        res@ == sample_current(title@, image@),
{
    MockDeployment {
        id: "d-current".to_owned(),
        state: "current".to_owned(),
        title: title.to_owned(),
        image: image.to_owned(),
        tag: "42".to_owned(),
        digest: "sha256:a8c92f1e0b7c3d4f9a2b1e6c8d0f4a5b6c7d8e9f0a1b2c3d4e5f6a7b8c9d0e1f2".to_owned(),
        deployed: "3 days ago".to_owned(),
        deployed_full: "May 24, 2026 · 14:22 UTC".to_owned(),
        size: "2.1 GB".to_owned(),
        kernel: "6.13.7-300.fc42.x86_64".to_owned(),
        package_count: 1342,
        signer: "fedora-42 (sigstore)".to_owned(),
        pinned: false,
    }
}

fn new_sample_previous(title: &str, image: &str) -> (res: MockDeployment)
    ensures
        res@ == sample_previous(title@, image@),
{
    MockDeployment {
        id: "d-prev".to_owned(),
        state: "previous".to_owned(),
        title: title.to_owned(),
        image: image.to_owned(),
        tag: "42".to_owned(),
        digest: "sha256:b3e1188fd91a7eaa0c6c8c4f1d8e9a7b6c5d4e3f2a1b0c9d8e7f6a5b4c3d2e1f0".to_owned(),
        deployed: "11 days ago".to_owned(),
        deployed_full: "May 16, 2026 · 09:08 UTC".to_owned(),
        size: "2.0 GB".to_owned(),
        kernel: "6.13.4-200.fc42.x86_64".to_owned(),
        package_count: 1338,
        signer: "fedora-42 (sigstore)".to_owned(),
        pinned: true,
    }
}

fn new_sample_archived(title: &str, image: &str) -> (res: MockDeployment)
    ensures
        res@ == sample_archived(title@, image@),
{
    MockDeployment {
        id: "d-arch".to_owned(),
        state: "archived".to_owned(),
        title: title.to_owned(),
        image: image.to_owned(),
        tag: "41".to_owned(),
        digest: "sha256:c0d22a4e6b8d1f3a5c7e9b0d2f4a6c8e0b1d3f5a7c9e1b3d5f7a9c1e3b5d7f9a0".to_owned(),
        deployed: "6 weeks ago".to_owned(),
        deployed_full: "Apr 15, 2026 · 18:51 UTC".to_owned(),
        size: "1.9 GB".to_owned(),
        kernel: "6.12.9-100.fc41.x86_64".to_owned(),
        package_count: 1297,
        signer: "fedora-41 (sigstore)".to_owned(),
        pinned: false,
    }
}

/// The deployments to show where the system reports none. A staged one is among them
/// while a reboot is pending.
pub open spec fn sample_deployments(
    title: Seq<char>,
    image: Seq<char>,
    reboot_pending: bool,
) -> Seq<DeploymentView> {
    let rest = seq![
        sample_current(title, image),
        sample_previous(title, image),
        sample_archived(title, image),
    ];
    if reboot_pending {
        seq![sample_staged(title, image)] + rest
    } else {
        rest
    }
}

/// The deployments to show.
pub open spec fn shown_deployments(
    reported: Option<Seq<DeploymentView>>,
    image_info: Option<Seq<char>>,
    registry_uri: Option<Seq<char>>,
    reboot_pending: bool,
) -> Seq<DeploymentView> {
    match reported {
        Some(list) => list,
        None => sample_deployments(
            match image_info {
                Some(t) => t,
                None => "Fedora bootc"@,
            },
            match registry_uri {
                Some(u) => u,
                None => "quay.io/fedora/fedora-bootc"@,
            },
            reboot_pending,
        ),
    }
}

/// The deployments to show: those that the system reports, else examples under the
/// name and the address of the running image, where they are known.
pub fn get_sample_deployments(
    reported: Option<Vec<MockDeployment>>,
    image_info: Option<&str>,
    registry_uri: Option<&str>,
    reboot_pending: bool,
) -> (res: Vec<MockDeployment>)
    ensures
        deployment_views(res@) == shown_deployments(
            match reported {
                Some(list) => Some(deployment_views(list@)),
                None => None,
            },
            match image_info {
                Some(t) => Some(t@),
                None => None,
            },
            match registry_uri {
                Some(u) => Some(u@),
                None => None,
            },
            reboot_pending,
        ),
{
    match reported {
        Some(list) => list,
        None => {
            let title: &str = match image_info {
                Some(t) => t,
                None => "Fedora bootc",
            };
            let image: &str = match registry_uri {
                Some(u) => u,
                None => "quay.io/fedora/fedora-bootc",
            };
            let mut list: Vec<MockDeployment> = Vec::new();
            if reboot_pending {
                list.push(new_sample_staged(title, image));
            }
            list.push(new_sample_current(title, image));
            list.push(new_sample_previous(title, image));
            list.push(new_sample_archived(title, image));
            assert(deployment_views(list@) =~= sample_deployments(title@, image@, reboot_pending));
            list
        },
    }
}

/// The place of the first deployment with an id; the length of the list where there
/// is none.
pub open spec fn place_of(list: Seq<DeploymentView>, id: Seq<char>) -> int
    decreases list.len(),
{
    if list.len() == 0 {
        0
    } else if list[0].id == id {
        0
    } else {
        1 + place_of(list.drop_first(), id)
    }
}

/// The list with the pin of the first deployment with this id set or taken away.
pub open spec fn with_pin_toggled(list: Seq<DeploymentView>, id: Seq<char>) -> Seq<DeploymentView> {
    let i = place_of(list, id);
    if i < list.len() {
        list.update(i, DeploymentView { pinned: !list[i].pinned, ..list[i] })
    } else {
        list
    }
}

/// What is said of a deployment whose pin was set or taken away.
pub open spec fn pin_message(d: DeploymentView) -> Seq<char> {
    if d.pinned {
        "Pinned "@ + d.tag + " (preventing pruning)"@
    } else {
        "Unpinned "@ + d.tag + " (allowing pruning)"@
    }
}

/// The place of a deployment is the first at which its id stands.
pub proof fn lemma_place_of(list: Seq<DeploymentView>, id: Seq<char>)
    ensures
        0 <= place_of(list, id) <= list.len(),
        place_of(list, id) < list.len() ==> list[place_of(list, id)].id == id,
        forall|k: int| 0 <= k < place_of(list, id) ==> (#[trigger] list[k]).id != id,
    decreases list.len(),
{
    if list.len() > 0 && list[0].id != id {
        lemma_place_of(list.drop_first(), id);
        assert forall|k: int| 0 <= k < place_of(list, id) implies (#[trigger] list[k]).id != id by {
            if k > 0 {
                assert(list.drop_first()[k - 1] == list[k]);
            }
        }
    }
}

/// A copy of a deployment.
pub fn copy_deployment(d: &MockDeployment) -> (res: MockDeployment)
    ensures
        res@ == d@,
{
    MockDeployment {
        id: d.id.as_str().to_owned(),
        state: d.state.as_str().to_owned(),
        title: d.title.as_str().to_owned(),
        image: d.image.as_str().to_owned(),
        tag: d.tag.as_str().to_owned(),
        digest: d.digest.as_str().to_owned(),
        deployed: d.deployed.as_str().to_owned(),
        deployed_full: d.deployed_full.as_str().to_owned(),
        size: d.size.as_str().to_owned(),
        kernel: d.kernel.as_str().to_owned(),
        package_count: d.package_count,
        signer: d.signer.as_str().to_owned(),
        pinned: d.pinned,
    }
}

/// Sets or takes away the pin of the first deployment with this id, and says so;
/// nothing where there is none.
pub fn toggle_pin(list: &mut Vec<MockDeployment>, id: &str) -> (res: Option<String>)
    ensures
        deployment_views(final(list)@) == with_pin_toggled(deployment_views(old(list)@), id@),
        ({
            let i = place_of(deployment_views(old(list)@), id@);
            match res {
                Some(text) => 0 <= i < old(list)@.len() && text@ == pin_message(
                    deployment_views(final(list)@)[i],
                ),
                None => i == old(list)@.len(),
            }
        }),
{
    let ghost all = deployment_views(list@);
    let mut i: usize = 0;
    assert(all.skip(0) =~= all);
    while i < list.len()
        invariant
            i <= list@.len(),
            all == deployment_views(list@),
            all == deployment_views(old(list)@),
            old(list)@.len() == list@.len(),
            place_of(all, id@) == i + place_of(all.skip(i as int), id@),
        decreases list@.len() - i,
    {
        proof {
            assert(all.skip(i as int)[0] == list@[i as int]@);
            assert(all.skip(i as int).drop_first() =~= all.skip(i + 1));
        }
        if str_eq(list[i].id.as_str(), id) {
            let mut d = copy_deployment(&list[i]);
            d.pinned = !d.pinned;
            let mut text: String = if d.pinned {
                "Pinned ".to_owned()
            } else {
                "Unpinned ".to_owned()
            };
            text.append(d.tag.as_str());
            if d.pinned {
                text.append(" (preventing pruning)");
            } else {
                text.append(" (allowing pruning)");
            }
            list.set(i, d);
            proof {
                assert(deployment_views(list@) =~= with_pin_toggled(all, id@));
            }
            return Some(text);
        }
        i = i + 1;
    }
    None
}

/// Toggling a pin twice changes nothing, and toggling it once changes no more than
/// that pin.
pub proof fn law_pin_toggled_twice(list: Seq<DeploymentView>, id: Seq<char>)
    ensures
        with_pin_toggled(with_pin_toggled(list, id), id) == list,
        with_pin_toggled(list, id).len() == list.len(),
        forall|k: int|
            0 <= k < list.len() ==> (#[trigger] with_pin_toggled(list, id)[k])
                == (DeploymentView { pinned: with_pin_toggled(list, id)[k].pinned, ..list[k] }),
{
    let once = with_pin_toggled(list, id);
    lemma_place_of(list, id);
    lemma_place_of(once, id);
    let i = place_of(list, id);
    let j = place_of(once, id);
    assert forall|k: int| 0 <= k < list.len() implies (#[trigger] once[k]).id == list[k].id by {}
    if i < list.len() {
        if j < i {
            assert(once[j].id == id);
            assert(list[j].id != id);
        }
        if i < j {
            assert(once[i].id != id);
        }
    } else if j < once.len() {
        assert(list[j].id != id);
    }
    assert(with_pin_toggled(once, id) =~= list);
}

/// A deployment as a row of the history.
#[derive(Debug, Clone)]
pub struct HistoryRow {
    /// The style of the indicator.
    pub indicator: &'static str,
    /// The pill that tells the state and its style, where there is one.
    pub state_pill: Option<(&'static str, &'static str)>,
    /// The pill that tells a pin.
    pub pinned: bool,
    /// The line below the title.
    pub subtitle: String,
    /// What the pin button does.
    pub pin_hint: &'static str,
    /// Whether one can roll back to the deployment.
    pub can_roll_back: bool,
    /// Whether the deployment can be made the default.
    pub can_set_default: bool,
    /// Whether the details are shown.
    pub expanded: bool,
    /// The icon of the button that shows or hides them.
    pub chevron: &'static str,
    /// The details, with their labels.
    pub details: Vec<(&'static str, String)>,
}

/// What a row holds.
#[verifier::ext_equal]
pub struct HistoryRowView {
    pub indicator: Seq<char>,
    pub state_pill: Option<(Seq<char>, Seq<char>)>,
    pub pinned: bool,
    pub subtitle: Seq<char>,
    pub pin_hint: Seq<char>,
    pub can_roll_back: bool,
    pub can_set_default: bool,
    pub expanded: bool,
    pub chevron: Seq<char>,
    pub details: Seq<(Seq<char>, Seq<char>)>,
}

impl View for HistoryRow {
    type V = HistoryRowView;

    open spec fn view(&self) -> HistoryRowView {
        HistoryRowView {
            indicator: self.indicator@,
            state_pill: match self.state_pill {
                Some(p) => Some((p.0@, p.1@)),
                None => None,
            },
            pinned: self.pinned,
            subtitle: self.subtitle@,
            pin_hint: self.pin_hint@,
            can_roll_back: self.can_roll_back,
            can_set_default: self.can_set_default,
            expanded: self.expanded,
            chevron: self.chevron@,
            details: self.details@.map_values(|d: (&'static str, String)| (d.0@, d.1@)),
        }
    }
}

/// The beginning of a digest: its first twelve bytes, or all of it where it cannot be
/// cut there.
pub open spec fn short_digest(digest: Seq<char>) -> Seq<char> {
    if cuttable(digest, 12) {
        byte_cut(digest, 12)
    } else {
        digest
    }
}

/// The deployment as a row of the history.
pub open spec fn history_row_of(d: DeploymentView, expanded_id: Option<Seq<char>>) -> HistoryRowView {
    let current = d.state == "current"@;
    let staged = d.state == "staged"@;
    let expanded = expanded_id == Some(d.id);
    HistoryRowView {
        indicator: if current {
            "deploy-indicator-current"@
        } else if staged {
            "deploy-indicator-staged"@
        } else {
            "deploy-indicator-archive"@
        },
        state_pill: if current {
            Some(("Booted"@, "status-pill-ok"@))
        } else if staged {
            Some(("Staged"@, "status-pill-ready"@))
        } else {
            None
        },
        pinned: d.pinned,
        subtitle: d.image + ":"@ + d.tag + "  ·  "@ + short_digest(d.digest) + "…  ·  "@ + d.deployed,
        pin_hint: if d.pinned {
            "Unpin"@
        } else {
            "Pin"@
        },
        can_roll_back: !current && !staged,
        can_set_default: !current,
        expanded,
        chevron: if expanded {
            "go-up-symbolic"@
        } else {
            "go-down-symbolic"@
        },
        details: seq![
            ("Image"@, d.image),
            ("Tag"@, d.tag),
            ("Digest"@, d.digest),
            ("Deployed"@, d.deployed_full),
            ("Kernel"@, d.kernel),
            ("Packages"@, decimal(d.package_count as nat) + " installed"@),
            ("Signature"@, "✓ Verified  ·  "@ + d.signer),
        ],
    }
}

/// The deployment as a row of the history, with its details where `expanded_id` names
/// it.
pub fn history_row(d: &MockDeployment, expanded_id: Option<&str>) -> (res: HistoryRow)
    ensures
        res@ == history_row_of(
            d@,
            match expanded_id {
                Some(id) => Some(id@),
                None => None,
            },
        ),
{
    let current: bool = str_eq(d.state.as_str(), "current");
    let staged: bool = str_eq(d.state.as_str(), "staged");
    let expanded: bool = match expanded_id {
        Some(id) => str_eq(id, d.id.as_str()),
        None => false,
    };
    let indicator: &'static str = if current {
        "deploy-indicator-current"
    } else if staged {
        "deploy-indicator-staged"
    } else {
        "deploy-indicator-archive"
    };
    let state_pill: Option<(&'static str, &'static str)> = if current {
        Some(("Booted", "status-pill-ok"))
    } else if staged {
        Some(("Staged", "status-pill-ready"))
    } else {
        None
    };
    let mut subtitle: String = d.image.as_str().to_owned();
    subtitle.append(":");
    subtitle.append(d.tag.as_str());
    subtitle.append("  ·  ");
    match byte_prefix(d.digest.as_str(), 12) {
        Some(head) => subtitle.append(head),
        None => subtitle.append(d.digest.as_str()),
    }
    subtitle.append("…  ·  ");
    subtitle.append(d.deployed.as_str());
    let mut packages: String = u64_text(d.package_count as u64);
    packages.append(" installed");
    let mut signature: String = "✓ Verified  ·  ".to_owned();
    signature.append(d.signer.as_str());
    let details: Vec<(&'static str, String)> = vec![
        ("Image", d.image.as_str().to_owned()),
        ("Tag", d.tag.as_str().to_owned()),
        ("Digest", d.digest.as_str().to_owned()),
        ("Deployed", d.deployed_full.as_str().to_owned()),
        ("Kernel", d.kernel.as_str().to_owned()),
        ("Packages", packages),
        ("Signature", signature),
    ];
    let row = HistoryRow {
        indicator,
        state_pill,
        pinned: d.pinned,
        subtitle,
        pin_hint: if d.pinned {
            "Unpin"
        } else {
            "Pin"
        },
        can_roll_back: !current && !staged,
        can_set_default: !current,
        expanded,
        chevron: if expanded {
            "go-up-symbolic"
        } else {
            "go-down-symbolic"
        },
        details,
    };
    proof {
        let id = match expanded_id {
            Some(id) => Some(id@),
            None => None,
        };
        assert(row@.details =~= history_row_of(d@, id).details);
        assert(row@ =~= history_row_of(d@, id));
    }
    row
}

/// One can roll back to what is neither booted nor staged, and make the default what
/// is not booted; the row of a deployment is expanded exactly where its id is the
/// expanded one.
pub proof fn law_history_actions(d: DeploymentView, expanded_id: Option<Seq<char>>)
    ensures
        history_row_of(d, expanded_id).can_roll_back <==> d.state != "current"@ && d.state
            != "staged"@,
        history_row_of(d, expanded_id).can_roll_back ==> history_row_of(
            d,
            expanded_id,
        ).can_set_default,
        history_row_of(d, expanded_id).expanded <==> expanded_id == Some(d.id),
{
}

/// How many images the history holds, in words.
pub open spec fn count_label(count: nat) -> Seq<char> {
    decimal(count) + " images"@
}

/// How many images the history holds.
pub fn images_count_label(count: usize) -> (res: String)
    ensures
        res@ == count_label(count as nat),
{
    let mut text: String = u64_text(count as u64);
    text.append(" images");
    text
}

/// The deployments that the system reports are shown as they are. Where it reports none,
/// three made-up ones are shown, and a staged one before them exactly while a reboot is
/// pending; all have the name and the address of the running image, and only the previous
/// one is pinned.
pub proof fn law_shown_deployments(
    reported: Seq<DeploymentView>,
    image_info: Option<Seq<char>>,
    registry_uri: Option<Seq<char>>,
    reboot_pending: bool,
)
    ensures
        shown_deployments(Some(reported), image_info, registry_uri, reboot_pending) == reported,
        ({
            let list = shown_deployments(None, image_info, registry_uri, reboot_pending);
            let n: int = if reboot_pending {
                1
            } else {
                0
            };
            &&& list.len() == n + 3
            &&& reboot_pending ==> list[0].state == "staged"@ && list[0].tag == "43"@
            &&& list[n].state == "current"@ && list[n].tag == "42"@
            &&& list[n + 1].state == "previous"@ && list[n + 1].tag == "42"@
            &&& list[n + 2].state == "archived"@ && list[n + 2].tag == "41"@
            &&& forall|i: int|
                0 <= i < list.len() ==> {
                    let d = #[trigger] list[i];
                    &&& image_info matches Some(t) ==> d.title == t
                    &&& image_info is None ==> d.title == "Fedora bootc"@
                    &&& registry_uri matches Some(u) ==> d.image == u
                    &&& registry_uri is None ==> d.image == "quay.io/fedora/fedora-bootc"@
                    &&& d.pinned <==> i == n + 1
                }
        }),
{
}

/// The pin of the first deployment with an id changes to the opposite; every other
/// deployment stays as it is, and so do all where there is none with that id.
pub proof fn law_pin_toggled(list: Seq<DeploymentView>, id: Seq<char>, i: int, k: int)
    requires
        0 <= k < list.len(),
    ensures
        0 <= i < list.len() && list[i].id == id && (forall|j: int|
            0 <= j < i ==> (#[trigger] list[j]).id != id) ==> {
            &&& with_pin_toggled(list, id)[i].pinned == !list[i].pinned
            &&& k != i ==> with_pin_toggled(list, id)[k] == list[k]
        },
        (forall|j: int| 0 <= j < list.len() ==> (#[trigger] list[j]).id != id)
            ==> with_pin_toggled(list, id) == list,
{
    let p = place_of(list, id);
    lemma_place_of(list, id);
    if p < list.len() {
        assert(list[p].id == id);
    }
}

/// A pin is said to prevent pruning, and its end to allow it; the deployment is named by
/// its tag.
pub proof fn law_pin_messages(d: DeploymentView)
    ensures
        d.pinned ==> pin_message(d) == "Pinned "@ + d.tag + " (preventing pruning)"@,
        !d.pinned ==> pin_message(d) == "Unpinned "@ + d.tag + " (allowing pruning)"@,
{
}

/// A digest in ASCII is shown by its first twelve characters, a shorter one whole.
pub proof fn law_short_digest(digest: Seq<char>)
    requires
        is_ascii_chars(digest),
    ensures
        digest.len() >= 12 ==> short_digest(digest) == digest.take(12),
        digest.len() < 12 ==> short_digest(digest) == digest,
{
    if digest.len() >= 12 {
        law_byte_cut_ascii(digest, 12);
    } else {
        is_ascii_chars_encode_utf8(digest);
    }
}

/// What a row shows of a deployment: its state by the indicator and the pill, its pin, its
/// address, digest and day, and its details.
pub proof fn law_history_row(d: DeploymentView, expanded_id: Option<Seq<char>>)
    ensures
        ({
            let row = history_row_of(d, expanded_id);
            &&& d.state == "current"@ ==> row.indicator == "deploy-indicator-current"@
                && row.state_pill == Some(("Booted"@, "status-pill-ok"@)) && !row.can_roll_back
                && !row.can_set_default
            &&& d.state == "staged"@ ==> row.indicator == "deploy-indicator-staged"@
                && row.state_pill == Some(("Staged"@, "status-pill-ready"@)) && !row.can_roll_back
                && row.can_set_default
            &&& d.state != "current"@ && d.state != "staged"@ ==> row.indicator
                == "deploy-indicator-archive"@ && row.state_pill is None && row.can_roll_back
                && row.can_set_default
            &&& row.pinned == d.pinned
            &&& d.pinned ==> row.pin_hint == "Unpin"@
            &&& !d.pinned ==> row.pin_hint == "Pin"@
            &&& expanded_id == Some(d.id) ==> row.expanded && row.chevron == "go-up-symbolic"@
            &&& expanded_id != Some(d.id) ==> !row.expanded && row.chevron == "go-down-symbolic"@
            &&& row.subtitle == d.image + ":"@ + d.tag + "  ·  "@ + short_digest(d.digest)
                + "…  ·  "@ + d.deployed
            &&& row.details == seq![
                ("Image"@, d.image),
                ("Tag"@, d.tag),
                ("Digest"@, d.digest),
                ("Deployed"@, d.deployed_full),
                ("Kernel"@, d.kernel),
                ("Packages"@, decimal(d.package_count as nat) + " installed"@),
                ("Signature"@, "✓ Verified  ·  "@ + d.signer),
            ]
        }),
{
    reveal_strlit("current");
    reveal_strlit("staged");
    assert("current"@.len() != "staged"@.len());
}

/// The count of the images is given in digits.
pub proof fn law_count_label(count: nat)
    ensures
        count_label(count) == decimal(count) + " images"@,
{
}

/// What the made-up deployments hold besides the name and the address of the image.
pub proof fn law_sample_figures(title: Seq<char>, image: Seq<char>)
    ensures
        ({
            let d = sample_staged(title, image);
            &&& d.id == "d-staged"@ && d.state == "staged"@ && d.tag == "43"@
            &&& d.digest
                == "sha256:f4e8c1a6b9d2f5a8c1e4b7d0a3c6f9b2e5a8d1c4f7b0a3e6d9c2f5b8a1e4d7c0"@
            &&& d.deployed == "Staged · pending reboot"@ && d.deployed_full == "Staged · pending reboot"@
            &&& d.size == "2.2 GB"@ && d.kernel == "6.14.1-300.fc43.x86_64"@
            &&& d.package_count == 1361 && d.signer == "fedora-43 (sigstore)"@
        }),
        ({
            let d = sample_current(title, image);
            &&& d.id == "d-current"@ && d.state == "current"@ && d.tag == "42"@
            &&& d.digest
                == "sha256:a8c92f1e0b7c3d4f9a2b1e6c8d0f4a5b6c7d8e9f0a1b2c3d4e5f6a7b8c9d0e1f2"@
            &&& d.deployed == "3 days ago"@ && d.deployed_full == "May 24, 2026 · 14:22 UTC"@
            &&& d.size == "2.1 GB"@ && d.kernel == "6.13.7-300.fc42.x86_64"@
            &&& d.package_count == 1342 && d.signer == "fedora-42 (sigstore)"@
        }),
        ({
            let d = sample_previous(title, image);
            &&& d.id == "d-prev"@ && d.state == "previous"@ && d.tag == "42"@
            &&& d.digest
                == "sha256:b3e1188fd91a7eaa0c6c8c4f1d8e9a7b6c5d4e3f2a1b0c9d8e7f6a5b4c3d2e1f0"@
            &&& d.deployed == "11 days ago"@ && d.deployed_full == "May 16, 2026 · 09:08 UTC"@
            &&& d.size == "2.0 GB"@ && d.kernel == "6.13.4-200.fc42.x86_64"@
            &&& d.package_count == 1338 && d.signer == "fedora-42 (sigstore)"@
        }),
        ({
            let d = sample_archived(title, image);
            &&& d.id == "d-arch"@ && d.state == "archived"@ && d.tag == "41"@
            &&& d.digest
                == "sha256:c0d22a4e6b8d1f3a5c7e9b0d2f4a6c8e0b1d3f5a7c9e1b3d5f7a9c1e3b5d7f9a0"@
            &&& d.deployed == "6 weeks ago"@ && d.deployed_full == "Apr 15, 2026 · 18:51 UTC"@
            &&& d.size == "1.9 GB"@ && d.kernel == "6.12.9-100.fc41.x86_64"@
            &&& d.package_count == 1297 && d.signer == "fedora-41 (sigstore)"@
        }),
{
}

} // verus!
