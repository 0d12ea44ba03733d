//! The deployments on disk: what is staged, booted and kept for rolling back.

use crate::json::{json_at, json_node_at, NodeView};
use crate::registry_client::{booted_image, booted_reference};
use crate::text::{
    byte_cut, byte_prefix, cuttable, law_byte_cut_ascii, law_split_concat, law_split_join,
    lemma_split_nonempty, optional_view, split, split_char, views,
};
use vstd::prelude::*;
use vstd::utf8::{is_ascii_chars, is_ascii_chars_encode_utf8};

verus! {

/// A deployment as the version history shows it.
#[derive(Debug, Clone)]
pub struct MockDeployment {
    pub id: String,
    /// One of "current", "staged", "previous" and "archived".
    pub state: String,
    pub title: String,
    pub image: String,
    pub tag: String,
    pub digest: String,
    pub deployed: String,
    pub deployed_full: String,
    pub size: String,
    pub kernel: String,
    pub package_count: u32,
    pub signer: String,
    pub pinned: bool,
}

/// What a deployment holds.
#[verifier::ext_equal]
pub struct DeploymentView {
    pub id: Seq<char>,
    pub state: Seq<char>,
    pub title: Seq<char>,
    pub image: Seq<char>,
    pub tag: Seq<char>,
    pub digest: Seq<char>,
    pub deployed: Seq<char>,
    pub deployed_full: Seq<char>,
    pub size: Seq<char>,
    pub kernel: Seq<char>,
    pub package_count: u32,
    pub signer: Seq<char>,
    pub pinned: bool,
}

impl View for MockDeployment {
    type V = DeploymentView;

    open spec fn view(&self) -> DeploymentView {
        DeploymentView {
            id: self.id@,
            state: self.state@,
            title: self.title@,
            image: self.image@,
            tag: self.tag@,
            digest: self.digest@,
            deployed: self.deployed@,
            deployed_full: self.deployed_full@,
            size: self.size@,
            kernel: self.kernel@,
            package_count: self.package_count,
            signer: self.signer@,
            pinned: self.pinned,
        }
    }
}

/// The views of a list of deployments.
pub open spec fn deployment_views(list: Seq<MockDeployment>) -> Seq<DeploymentView> {
    list.map_values(|d: MockDeployment| d@)
}

/// The places that a deployment can have.
#[derive(Debug, Clone, Copy, PartialEq, Eq, Structural)]
pub enum Slot {
    Staged,
    Booted,
    Rollback,
}

/// What a status says of a deployment.
#[derive(Debug, Clone)]
pub struct DeploymentSource {
    pub image_ref: Option<String>,
    pub digest: Option<String>,
    pub timestamp: Option<String>,
    pub pinned: Option<bool>,
}

/// What a source holds.
#[verifier::ext_equal]
pub struct SourceView {
    pub image_ref: Option<Seq<char>>,
    pub digest: Option<Seq<char>>,
    pub timestamp: Option<Seq<char>>,
    pub pinned: Option<bool>,
}

impl View for DeploymentSource {
    type V = SourceView;

    open spec fn view(&self) -> SourceView {
        SourceView {
            image_ref: optional_view(self.image_ref),
            digest: optional_view(self.digest),
            timestamp: optional_view(self.timestamp),
            pinned: self.pinned,
        }
    }
}

/// The view of a source that may be missing.
pub open spec fn optional_source(s: Option<DeploymentSource>) -> Option<SourceView> {
    match s {
        Some(source) => Some(source@),
        None => None,
    }
}

/// The text, or the empty one where it is missing.
pub open spec fn text_or_empty(s: Option<Seq<char>>) -> Seq<char> {
    match s {
        Some(t) => t,
        None => Seq::empty(),
    }
}

/// The last part of the path of an image reference, without the tag.
pub open spec fn image_title(image_ref: Seq<char>) -> Seq<char> {
    if image_ref.len() == 0 {
        "Fedora bootc"@
    } else {
        split(split(image_ref, ':')[0], '/').last()
    }
}

/// What stands between the first two colons of an image reference.
pub open spec fn image_tag(image_ref: Seq<char>) -> Seq<char> {
    if image_ref.len() == 0 || split(image_ref, ':').len() < 2 {
        "latest"@
    } else {
        split(image_ref, ':')[1]
    }
}

/// The day of a time stamp: its first ten bytes.
pub open spec fn build_note(timestamp: Seq<char>) -> Seq<char> {
    "Built: "@ + if cuttable(timestamp, 10) {
        byte_cut(timestamp, 10)
    } else {
        "recently"@
    }
}

/// The deployment at a place.
pub open spec fn deployment_at(slot: Slot, source: SourceView) -> DeploymentView {
    let image_ref = text_or_empty(source.image_ref);
    let common = DeploymentView {
        id: ""@,
        state: ""@,
        title: image_title(image_ref),
        image: image_ref,
        tag: image_tag(image_ref),
        digest: text_or_empty(source.digest),
        deployed: ""@,
        deployed_full: build_note(text_or_empty(source.timestamp)),
        size: ""@,
        kernel: ""@,
        package_count: 0,
        signer: ""@,
        pinned: source.pinned == Some(true),
    };
    match slot {
        Slot::Staged => DeploymentView {
            id: "d-staged"@,
            state: "staged"@,
            deployed: "Staged · pending reboot"@,
            size: "2.2 GB"@,
            kernel: "6.14.1-300.fc43.x86_64"@,
            package_count: 1361,
            signer: "fedora-43 (sigstore)"@,
            pinned: false,
            ..common
        },
        Slot::Booted => DeploymentView {
            id: "d-current"@,
            state: "current"@,
            deployed: "Currently booted"@,
            size: "2.1 GB"@,
            kernel: "6.13.7-300.fc42.x86_64"@,
            package_count: 1342,
            signer: "fedora-42 (sigstore)"@,
            ..common
        },
        Slot::Rollback => DeploymentView {
            id: "d-rollback"@,
            state: "previous"@,
            deployed: "Rollback target"@,
            size: "2.0 GB"@,
            kernel: "6.13.4-200.fc42.x86_64"@,
            package_count: 1338,
            signer: "fedora-42 (sigstore)"@,
            ..common
        },
    }
}

fn owned_or_empty(s: &Option<String>) -> (res: String)
    ensures
        res@ == text_or_empty(optional_view(*s)),
{
    match s {
        Some(t) => t.as_str().to_owned(),
        None => {
            let t = String::new();
            assert(t@ =~= Seq::<char>::empty());
            t
        },
    }
}

fn title_and_tag(image_ref: &str) -> (res: (String, String))
    ensures
        res.0@ == image_title(image_ref@),
        res.1@ == image_tag(image_ref@),
{
    if image_ref.unicode_len() == 0 {
        return ("Fedora bootc".to_owned(), "latest".to_owned());
    }
    let parts = split_char(image_ref, ':');
    proof {
        lemma_split_nonempty(image_ref@, ':');
        assert(views(parts@).len() == parts@.len());
        assert(views(parts@)[0] == parts@[0]@);
    }
    let path = split_char(parts[0], '/');
    proof {
        lemma_split_nonempty(parts@[0]@, '/');
        assert(views(path@).len() == path@.len());
        assert(views(path@).last() == path@.last()@);
    }
    let title: String = path[path.len() - 1].to_owned();
    let tag: String = if parts.len() < 2 {
        "latest".to_owned()
    } else {
        assert(views(parts@)[1] == parts@[1]@);
        parts[1].to_owned()
    };
    (title, tag)
}

fn built(timestamp: &str) -> (res: String)
    ensures
        res@ == build_note(timestamp@),
{
    let mut text: String = "Built: ".to_owned();
    match byte_prefix(timestamp, 10) {
        Some(day) => text.append(day),
        None => text.append("recently"),
    }
    text
}

/// The deployment at a place.
pub fn make_deployment(slot: Slot, source: &DeploymentSource) -> (res: MockDeployment)
    ensures
        res@ == deployment_at(slot, source@),
{
    let image: String = owned_or_empty(&source.image_ref);
    let (title, tag) = title_and_tag(image.as_str());
    let digest: String = owned_or_empty(&source.digest);
    let timestamp: String = owned_or_empty(&source.timestamp);
    let deployed_full: String = built(timestamp.as_str());
    let pinned: bool = match source.pinned {
        Some(p) => p,
        None => false,
    };
    match slot {
        Slot::Staged => MockDeployment {
            id: "d-staged".to_owned(),
            state: "staged".to_owned(),
            title,
            image,
            tag,
            digest,
            deployed: "Staged · pending reboot".to_owned(),
            deployed_full,
            size: "2.2 GB".to_owned(),
            kernel: "6.14.1-300.fc43.x86_64".to_owned(),
            package_count: 1361,
            signer: "fedora-43 (sigstore)".to_owned(),
            pinned: false,
        },
        Slot::Booted => MockDeployment {
            id: "d-current".to_owned(),
            state: "current".to_owned(),
            title,
            image,
            tag,
            digest,
            deployed: "Currently booted".to_owned(),
            deployed_full,
            size: "2.1 GB".to_owned(),
            kernel: "6.13.7-300.fc42.x86_64".to_owned(),
            package_count: 1342,
            signer: "fedora-42 (sigstore)".to_owned(),
            pinned,
        },
        Slot::Rollback => MockDeployment {
            id: "d-rollback".to_owned(),
            state: "previous".to_owned(),
            title,
            image,
            tag,
            digest,
            deployed: "Rollback target".to_owned(),
            deployed_full,
            size: "2.0 GB".to_owned(),
            kernel: "6.13.4-200.fc42.x86_64".to_owned(),
            package_count: 1338,
            signer: "fedora-42 (sigstore)".to_owned(),
            pinned,
        },
    }
}

/// No deployment, or the one at a place.
pub open spec fn deployment_or_none(slot: Slot, source: Option<SourceView>) -> Seq<DeploymentView> {
    match source {
        Some(s) => seq![deployment_at(slot, s)],
        None => Seq::empty(),
    }
}

/// The deployments of a status: staged, booted, and the one to roll back to.
pub open spec fn deployments_of(
    staged: Option<SourceView>,
    booted: Option<SourceView>,
    rollback: Option<SourceView>,
) -> Seq<DeploymentView> {
    deployment_or_none(Slot::Staged, staged) + deployment_or_none(Slot::Booted, booted)
        + deployment_or_none(Slot::Rollback, rollback)
}

/// The deployments of a status: staged, booted, and the one to roll back to; nothing
/// where there are none.
pub fn list_deployments(
    staged: &Option<DeploymentSource>,
    booted: &Option<DeploymentSource>,
    rollback: &Option<DeploymentSource>,
) -> (res: Option<Vec<MockDeployment>>)
    ensures
        ({
            let all = deployments_of(
                optional_source(*staged),
                optional_source(*booted),
                optional_source(*rollback),
            );
            match res {
                Some(list) => deployment_views(list@) == all && all.len() > 0,
                None => all.len() == 0,
            }
        }),
{
    let mut list: Vec<MockDeployment> = Vec::new();
    if let Some(source) = staged {
        list.push(make_deployment(Slot::Staged, source));
    }
    if let Some(source) = booted {
        list.push(make_deployment(Slot::Booted, source));
    }
    if let Some(source) = rollback {
        list.push(make_deployment(Slot::Rollback, source));
    }
    assert(deployment_views(list@) =~= deployments_of(
        optional_source(*staged),
        optional_source(*booted),
        optional_source(*rollback),
    ));
    if list.len() == 0 {
        None
    } else {
        Some(list)
    }
}

/// Where a status keeps the deployment at a place.
pub open spec fn slot_pointer(slot: Slot) -> Seq<char> {
    match slot {
        Slot::Staged => "/status/staged"@,
        Slot::Booted => "/status/booted"@,
        Slot::Rollback => "/status/rollback"@,
    }
}

/// What a status says of the deployment at a place.
pub open spec fn source_in(document: Seq<u8>, slot: Slot) -> Option<SourceView> {
    let at = slot_pointer(slot);
    if json_at(document, at).is_present() {
        Some(
            SourceView {
                image_ref: booted_reference(
                    json_at(document, at + "/image/image/image"@),
                    json_at(document, at + "/image/image"@),
                ),
                digest: json_at(document, at + "/image/imageDigest"@).text(),
                timestamp: json_at(document, at + "/image/timestamp"@).text(),
                pinned: json_at(document, at + "/pinned"@).flag(),
            },
        )
    } else {
        None
    }
}

fn read_source(document: &[u8], slot: Slot) -> (res: Option<DeploymentSource>)
    ensures
        optional_source(res) == source_in(document@, slot),
{
    let at: &str = match slot {
        Slot::Staged => "/status/staged",
        Slot::Booted => "/status/booted",
        Slot::Rollback => "/status/rollback",
    };
    if !json_node_at(document, at).is_present() {
        return None;
    }
    let mut first: String = at.to_owned();
    first.append("/image/image/image");
    let mut second: String = at.to_owned();
    second.append("/image/image");
    let mut digest: String = at.to_owned();
    digest.append("/image/imageDigest");
    let mut timestamp: String = at.to_owned();
    timestamp.append("/image/timestamp");
    let mut pinned: String = at.to_owned();
    pinned.append("/pinned");
    let image_ref = booted_image(
        json_node_at(document, first.as_str()),
        json_node_at(document, second.as_str()),
    );
    let source = DeploymentSource {
        image_ref,
        digest: json_node_at(document, digest.as_str()).into_text(),
        timestamp: json_node_at(document, timestamp.as_str()).into_text(),
        pinned: json_node_at(document, pinned.as_str()).into_flag(),
    };
    assert(source@ =~= source_in(document@, slot).unwrap());
    Some(source)
}

/// The deployments in the output of `bootc status --json`; nothing where there are
/// none.
pub fn get_real_deployments_from_json(document: &[u8]) -> (res: Option<Vec<MockDeployment>>)
    ensures
        ({
            let all = deployments_of(
                source_in(document@, Slot::Staged),
                source_in(document@, Slot::Booted),
                source_in(document@, Slot::Rollback),
            );
            match res {
                Some(list) => deployment_views(list@) == all && all.len() > 0,
                None => all.len() == 0,
            }
        }),
{
    let staged = read_source(document, Slot::Staged);
    let booted = read_source(document, Slot::Booted);
    let rollback = read_source(document, Slot::Rollback);
    list_deployments(&staged, &booted, &rollback)
}

/// A status names at most one deployment of each kind, the staged one before the
/// booted one, and that before the one to roll back to.
pub proof fn law_deployment_order(
    staged: Option<SourceView>,
    booted: Option<SourceView>,
    rollback: Option<SourceView>,
)
    ensures
        ({
            let all = deployments_of(staged, booted, rollback);
            let s = if staged is Some {
                1int
            } else {
                0
            };
            let b = if booted is Some {
                1int
            } else {
                0
            };
            &&& all.len() <= 3
            &&& all.len() == s + b + (if rollback is Some {
                1int
            } else {
                0
            })
            &&& staged matches Some(source) ==> all[0] == deployment_at(Slot::Staged, source)
            &&& booted matches Some(source) ==> all[s] == deployment_at(Slot::Booted, source)
            &&& rollback matches Some(source) ==> all[s + b] == deployment_at(
                Slot::Rollback,
                source,
            )
            &&& staged is Some ==> all[0].state == "staged"@ && !all[0].pinned
            &&& booted is Some ==> all[s].state == "current"@
            &&& rollback is Some ==> all[s + b].state == "previous"@
        }),
{
}

/// A reference is titled by the last part of its path and has the tag behind its colon;
/// without one the tag is `latest`. What stands behind a second colon counts for nothing.
/// Without a reference the title is made up.
pub proof fn law_reference_parts(
    path: Seq<char>,
    name: Seq<char>,
    tag: Seq<char>,
    more: Seq<char>,
)
    requires
        !path.contains(':'),
        !name.contains(':') && !name.contains('/') && name.len() > 0,
        !tag.contains(':'),
    ensures
        image_title(path + "/"@ + name + ":"@ + tag) == name,
        image_tag(path + "/"@ + name + ":"@ + tag) == tag,
        image_title(path + "/"@ + name + ":"@ + tag + ":"@ + more) == name,
        image_tag(path + "/"@ + name + ":"@ + tag + ":"@ + more) == tag,
        image_title(path + "/"@ + name) == name,
        image_tag(path + "/"@ + name) == "latest"@,
        image_title(name + ":"@ + tag) == name,
        image_tag(name + ":"@ + tag) == tag,
        image_title(Seq::empty()) == "Fedora bootc"@,
        image_tag(Seq::empty()) == "latest"@,
{
    reveal_strlit("/");
    reveal_strlit(":");
    let whole = path + "/"@ + name;
    assert(whole =~= path.push('/') + name);
    assert(!whole.contains(':'));
    assert(whole + ":"@ + tag =~= whole.push(':') + tag);
    assert(name + ":"@ + tag =~= name.push(':') + tag);
    law_split_concat(whole, tag, ':');
    let longer = whole + ":"@ + tag + ":"@ + more;
    assert(longer =~= (whole.push(':') + tag).push(':') + more);
    law_split_concat(whole.push(':') + tag, more, ':');
    law_split_concat(name, tag, ':');
    law_split_join(seq![whole], ':');
    law_split_join(seq![name], ':');
    law_split_join(seq![tag], ':');
    law_split_concat(path, name, '/');
    law_split_join(seq![name], '/');
    assert((seq![whole] + seq![tag])[1] == tag);
    assert((seq![name] + seq![tag])[1] == tag);
    assert((seq![whole] + seq![tag] + split(more, ':'))[0] == whole);
    assert((seq![whole] + seq![tag] + split(more, ':'))[1] == tag);
}

/// A time stamp in ASCII is noted by its first ten characters, which are its day; one that
/// is shorter is not.
pub proof fn law_build_note(timestamp: Seq<char>)
    requires
        is_ascii_chars(timestamp),
    ensures
        timestamp.len() >= 10 ==> build_note(timestamp) == "Built: "@ + timestamp.take(10),
        timestamp.len() < 10 ==> build_note(timestamp) == "Built: "@ + "recently"@,
{
    if timestamp.len() >= 10 {
        law_byte_cut_ascii(timestamp, 10);
    } else {
        is_ascii_chars_encode_utf8(timestamp);
    }
}

/// A deployment has the reference, the digest and the pin that the status gives, each under
/// its own name; a staged one is never pinned. Its place decides its id and its state.
pub proof fn law_deployment_fields(slot: Slot, source: SourceView)
    ensures
        ({
            let d = deployment_at(slot, source);
            &&& source.image_ref matches Some(r) ==> d.image == r && d.title == image_title(r)
                && d.tag == image_tag(r)
            &&& source.image_ref is None ==> d.image.len() == 0 && d.title == "Fedora bootc"@
                && d.tag == "latest"@
            &&& source.digest matches Some(digest) ==> d.digest == digest
            &&& source.digest is None ==> d.digest.len() == 0
            &&& source.timestamp matches Some(t) ==> d.deployed_full == build_note(t)
            &&& d.pinned <==> source.pinned == Some(true) && slot != Slot::Staged
            &&& slot == Slot::Staged ==> d.id == "d-staged"@ && d.state == "staged"@ && d.deployed
                == "Staged · pending reboot"@
            &&& slot == Slot::Booted ==> d.id == "d-current"@ && d.state == "current"@
                && d.deployed == "Currently booted"@
            &&& slot == Slot::Rollback ==> d.id == "d-rollback"@ && d.state == "previous"@
                && d.deployed == "Rollback target"@
        }),
{
}

/// What else is shown of a deployment depends on its place alone.
pub proof fn law_deployment_figures(source: SourceView)
    ensures
        ({
            let staged = deployment_at(Slot::Staged, source);
            let booted = deployment_at(Slot::Booted, source);
            let rollback = deployment_at(Slot::Rollback, source);
            &&& staged.size == "2.2 GB"@ && staged.kernel == "6.14.1-300.fc43.x86_64"@
                && staged.package_count == 1361 && staged.signer == "fedora-43 (sigstore)"@
            &&& booted.size == "2.1 GB"@ && booted.kernel == "6.13.7-300.fc42.x86_64"@
                && booted.package_count == 1342 && booted.signer == "fedora-42 (sigstore)"@
            &&& rollback.size == "2.0 GB"@ && rollback.kernel == "6.13.4-200.fc42.x86_64"@
                && rollback.package_count == 1338 && rollback.signer == "fedora-42 (sigstore)"@
        }),
{
}

/// Where a status keeps what it says of a deployment.
pub proof fn law_status_places(document: Seq<u8>, slot: Slot, at: Seq<char>)
    requires
        slot == Slot::Staged ==> at == "/status/staged"@,
        slot == Slot::Booted ==> at == "/status/booted"@,
        slot == Slot::Rollback ==> at == "/status/rollback"@,
    ensures
        source_in(document, slot) is Some <==> json_at(document, at).is_present(),
        source_in(document, slot) matches Some(source) ==> {
            &&& json_at(document, at + "/image/image/image"@) matches NodeView::Text(t)
                ==> source.image_ref == Some(t)
            &&& json_at(document, at + "/image/image/image"@) is Absent ==> (json_at(
                document,
                at + "/image/image"@,
            ) matches NodeView::Text(t) ==> source.image_ref == Some(t))
            &&& source.digest == json_at(document, at + "/image/imageDigest"@).text()
            &&& source.timestamp == json_at(document, at + "/image/timestamp"@).text()
            &&& source.pinned == json_at(document, at + "/pinned"@).flag()
        },
{
}

} // verus!
