//! What every frontend needs of the backend: image references, families with their
//! switchable features, and the answers of the updater service.

use crate::family::{
    best_of, catalogue, family_views, holds_image, known_families, law_selection_order_free,
    law_selection_published, lemma_first_passing, lemma_none_passing, Family, FamilyView,
};
use crate::registry_client::{
    at_most, law_versions_sorted, newest_versions, newest_versions_first, optional_client,
    registry_error_text, version_views, versions_result, ClientView, ImageVersion, ImageVersionView,
    RegistryClient, RegistryError, RegistryErrorView,
};
use crate::text::{
    find, find_char, lemma_find, lemma_rfind, owned_views, rfind, rfind_char, str_eq,
    strictly_ascending, to_chars, views,
};
use vstd::prelude::*;

verus! {

/// An image as `registry/org/image:tag`.
#[derive(Debug, Clone, PartialEq, Eq, Hash)]
pub struct ImageRef {
    pub registry: String,
    pub org: String,
    pub image: String,
    pub tag: String,
}

/// What an image reference holds.
#[verifier::ext_equal]
pub struct ImageRefView {
    pub registry: Seq<char>,
    pub org: Seq<char>,
    pub image: Seq<char>,
    pub tag: Seq<char>,
}

impl View for ImageRef {
    type V = ImageRefView;

    open spec fn view(&self) -> ImageRefView {
        ImageRefView {
            registry: self.registry@,
            org: self.org@,
            image: self.image@,
            tag: self.tag@,
        }
    }
}

impl ImageRefView {
    /// The reference as text.
    pub open spec fn text(self) -> Seq<char> {
        self.registry + "/"@ + self.org + "/"@ + self.image + ":"@ + self.tag
    }

    /// A reference that its text tells apart: no slash in the registry or the
    /// organisation, no colon in the tag.
    pub open spec fn canonical(self) -> bool {
        !self.registry.contains('/') && !self.org.contains('/') && !self.tag.contains(':')
    }
}

/// The reference that a text stands for: the tag follows the last colon, and the
/// registry and the organisation end at the first two slashes before it.
pub open spec fn parse_reference(s: Seq<char>) -> Option<ImageRefView> {
    let colon = rfind(s, ':');
    let head = s.take(colon);
    let first = find(head, '/');
    let rest = head.skip(first + 1);
    let second = find(rest, '/');
    if colon < 0 || first < 0 || second < 0 {
        None
    } else {
        Some(
            ImageRefView {
                registry: head.take(first),
                org: rest.take(second),
                image: rest.skip(second + 1),
                tag: s.skip(colon + 1),
            },
        )
    }
}

impl ImageRef {
    /// Reads `registry/org/image:tag`; nothing where a part is missing.
    pub fn parse(s: &str) -> (res: Option<ImageRef>)
        ensures
            match res {
                Some(r) => parse_reference(s@) == Some(r@),
                None => parse_reference(s@) is None,
            },
    {
        let total: usize = to_chars(s).len();
        match rfind_char(s, ':') {
            None => None,
            Some(colon) => {
                let head = s.substring_char(0, colon);
                assert(head@ =~= s@.take(colon as int));
                match find_char(head, '/') {
                    None => None,
                    Some(first) => {
                        let rest = head.substring_char(first + 1, colon);
                        assert(rest@ =~= head@.skip(first + 1));
                        match find_char(rest, '/') {
                            None => None,
                            Some(second) => {
                                let rest_len: usize = colon - first - 1;
                                let r = ImageRef {
                                    registry: head.substring_char(0, first).to_owned(),
                                    org: rest.substring_char(0, second).to_owned(),
                                    image: rest.substring_char(second + 1, rest_len).to_owned(),
                                    tag: s.substring_char(colon + 1, total).to_owned(),
                                };
                                proof {
                                    assert(r@.registry =~= head@.take(first as int));
                                    assert(r@.org =~= rest@.take(second as int));
                                    assert(r@.image =~= rest@.skip(second + 1));
                                    assert(r@.tag =~= s@.skip(colon + 1));
                                }
                                Some(r)
                            },
                        }
                    },
                }
            },
        }
    }

    /// The reference as text.
    pub fn as_string(&self) -> (res: String)
        ensures
            res@ == self@.text(),
    {
        let mut text: String = self.registry.as_str().to_owned();
        text.append("/");
        text.append(self.org.as_str());
        text.append("/");
        text.append(self.image.as_str());
        text.append(":");
        text.append(self.tag.as_str());
        text
    }
}

/// A text that stands for a reference is the text of that reference, which is
/// canonical.
pub proof fn law_parsed_text(s: Seq<char>)
    requires
        parse_reference(s) is Some,
    ensures
        parse_reference(s).unwrap().text() == s,
        parse_reference(s).unwrap().canonical(),
{
    reveal_strlit("/");
    reveal_strlit(":");
    let colon = rfind(s, ':');
    let head = s.take(colon);
    let first = find(head, '/');
    let rest = head.skip(first + 1);
    let second = find(rest, '/');
    lemma_rfind(s, ':');
    lemma_find(head, '/');
    lemma_find(rest, '/');
    let r = parse_reference(s).unwrap();
    assert(head =~= r.registry + "/"@ + rest);
    assert(rest =~= r.org + "/"@ + r.image);
    assert(s =~= head + ":"@ + r.tag);
    assert(r.text() =~= s);
    if r.tag.contains(':') {
        let k = choose|k: int| 0 <= k < r.tag.len() && r.tag[k] == ':';
        assert(s[colon + 1 + k] == ':');
    }
    if r.registry.contains('/') {
        let k = choose|k: int| 0 <= k < r.registry.len() && r.registry[k] == '/';
        assert(head[k] == '/');
    }
    if r.org.contains('/') {
        let k = choose|k: int| 0 <= k < r.org.len() && r.org[k] == '/';
        assert(rest[k] == '/');
    }
}

/// The text of a reference stands for that reference exactly where the reference is
/// canonical.
pub proof fn law_reference_round_trip(r: ImageRefView)
    ensures
        parse_reference(r.text()) == Some(r) <==> r.canonical(),
{
    if parse_reference(r.text()) == Some(r) {
        law_parsed_text(r.text());
    }
    if r.canonical() {
        reveal_strlit("/");
        reveal_strlit(":");
        let s = r.text();
        let a = r.registry.len() as int;
        let b = r.org.len() as int;
        let c = r.image.len() as int;
        let n = a + 1 + b + 1 + c;
        lemma_rfind(s, ':');
        assert(s[n] == ':');
        let colon = rfind(s, ':');
        assert(colon == n) by {
            if colon > n {
                assert(s[colon] == r.tag[colon - n - 1]);
                assert(r.tag.contains(':'));
            }
        }
        let head = s.take(colon);
        assert(head =~= r.registry + "/"@ + r.org + "/"@ + r.image);
        let first = find(head, '/');
        lemma_find(head, '/');
        assert(head[a] == '/');
        assert(head.contains('/'));
        assert(first == a) by {
            if first < a {
                assert(r.registry[first] == '/');
                assert(r.registry.contains('/'));
            }
        }
        let rest = head.skip(first + 1);
        assert(rest =~= r.org + "/"@ + r.image);
        let second = find(rest, '/');
        lemma_find(rest, '/');
        assert(rest[b] == '/');
        assert(rest.contains('/'));
        assert(second == b) by {
            if second < b {
                assert(r.org[second] == '/');
                assert(r.org.contains('/'));
            }
        }
        let p = parse_reference(s).unwrap();
        assert(p.registry =~= r.registry);
        assert(p.org =~= r.org);
        assert(p.image =~= r.image);
        assert(p.tag =~= r.tag);
    }
}

/// A family as frontends show it: its name, its base image and the features that can
/// be switched.
#[derive(Debug, Clone, PartialEq, Eq)]
pub struct FamilyInfo {
    pub name: String,
    pub base_image: String,
    pub features: Vec<Feature>,
}

/// A feature that can be switched.
#[derive(Debug, Clone, PartialEq, Eq)]
pub struct Feature {
    /// The suffix of the image names, such as `nvidia`.
    pub id: String,
    /// The name for people.
    pub display_name: String,
    /// What it is about.
    pub subtitle: String,
}

/// Why the service cannot answer.
#[derive(Debug, Clone)]
pub enum ServiceError {
    Registry(String),
    Io(String),
    Unsupported(String),
    NotFound(String),
}

/// What an error holds.
pub enum ServiceErrorView {
    Registry(Seq<char>),
    Io(Seq<char>),
    Unsupported(Seq<char>),
    NotFound(Seq<char>),
}

impl View for ServiceError {
    type V = ServiceErrorView;

    open spec fn view(&self) -> ServiceErrorView {
        match self {
            ServiceError::Registry(m) => ServiceErrorView::Registry(m@),
            ServiceError::Io(m) => ServiceErrorView::Io(m@),
            ServiceError::Unsupported(m) => ServiceErrorView::Unsupported(m@),
            ServiceError::NotFound(m) => ServiceErrorView::NotFound(m@),
        }
    }
}

/// The error in words.
pub open spec fn service_error_text(error: ServiceErrorView) -> Seq<char> {
    match error {
        ServiceErrorView::Registry(m) => "registry: "@ + m,
        ServiceErrorView::Io(m) => "io: "@ + m,
        ServiceErrorView::Unsupported(m) => "unsupported: "@ + m,
        ServiceErrorView::NotFound(m) => "not found: "@ + m,
    }
}

impl ServiceError {
    /// The error in words.
    pub fn message(&self) -> (res: String)
        ensures
            res@ == service_error_text(self@),
    {
        let (lead, m): (&str, &String) = match self {
            ServiceError::Registry(m) => ("registry: ", m),
            ServiceError::Io(m) => ("io: ", m),
            ServiceError::Unsupported(m) => ("unsupported: ", m),
            ServiceError::NotFound(m) => ("not found: ", m),
        };
        let mut text: String = lead.to_owned();
        text.append(m.as_str());
        text
    }
}

/// What is reported while the system is switched to another image. Nothing follows
/// `Done` or `Failed`.
#[derive(Debug, Clone)]
pub enum SwitchProgress {
    /// The switch to `target` has begun.
    Started { target: String },
    /// How far a layer of the image is.
    Layer { index: u32, total: u32, bytes_done: u64, bytes_total: u64 },
    /// A line of output.
    Log { line: String },
    /// The image is staged for the next boot.
    Done,
    /// The switch failed.
    Failed { message: String },
}

/// The name of a feature for people.
pub open spec fn feature_name(feat: Seq<char>) -> Seq<char> {
    if feat == "nvidia"@ {
        "NVIDIA drivers (proprietary)"@
    } else if feat == "open"@ {
        "NVIDIA open kernel modules"@
    } else if feat == "dx"@ {
        "Developer extras (DX)"@
    } else if feat == "hwe"@ {
        "Hardware-enablement kernel (HWE)"@
    } else if feat == "gdx"@ {
        "GNOME Developer extras (GDX)"@
    } else if feat == "deck"@ {
        "Steam Deck profile"@
    } else if feat == "asus"@ {
        "ASUS ROG tuning"@
    } else if feat == "surface"@ {
        "Microsoft Surface kernel"@
    } else if feat == "framework"@ {
        "Framework laptop tuning"@
    } else {
        "Variant feature"@
    }
}

/// What a feature is about.
pub open spec fn feature_about(feat: Seq<char>) -> Seq<char> {
    if feat == "nvidia"@ {
        "Use the closed-source NVIDIA driver"@
    } else if feat == "open"@ {
        "Use Mesa's NVK / NVIDIA open-source kernel driver"@
    } else if feat == "dx"@ {
        "Includes container tools, IDEs, and language SDKs"@
    } else if feat == "hwe"@ {
        "Newer kernel + drivers backported for fresh hardware"@
    } else if feat == "gdx"@ {
        "GNOME-focused developer toolchain"@
    } else if feat == "deck"@ {
        "Tuned for Steam Deck hardware (gamescope, Steam shell)"@
    } else if feat == "asus"@ {
        "Kernel patches for ASUS ROG Ally / Strix laptops"@
    } else if feat == "surface"@ {
        "Linux-surface kernel + camera fix-ups"@
    } else if feat == "framework"@ {
        "Power profiles + fingerprint reader support"@
    } else {
        "Additional ublue extras"@
    }
}

/// The name of a feature for people.
pub fn feature_display_name(feat: &str) -> (res: &'static str)
    ensures
        res@ == feature_name(feat@),
{
    if str_eq(feat, "nvidia") {
        "NVIDIA drivers (proprietary)"
    } else if str_eq(feat, "open") {
        "NVIDIA open kernel modules"
    } else if str_eq(feat, "dx") {
        "Developer extras (DX)"
    } else if str_eq(feat, "hwe") {
        "Hardware-enablement kernel (HWE)"
    } else if str_eq(feat, "gdx") {
        "GNOME Developer extras (GDX)"
    } else if str_eq(feat, "deck") {
        "Steam Deck profile"
    } else if str_eq(feat, "asus") {
        "ASUS ROG tuning"
    } else if str_eq(feat, "surface") {
        "Microsoft Surface kernel"
    } else if str_eq(feat, "framework") {
        "Framework laptop tuning"
    } else {
        "Variant feature"
    }
}

/// What a feature is about.
pub fn feature_subtitle(feat: &str) -> (res: &'static str)
    ensures
        res@ == feature_about(feat@),
{
    if str_eq(feat, "nvidia") {
        "Use the closed-source NVIDIA driver"
    } else if str_eq(feat, "open") {
        "Use Mesa's NVK / NVIDIA open-source kernel driver"
    } else if str_eq(feat, "dx") {
        "Includes container tools, IDEs, and language SDKs"
    } else if str_eq(feat, "hwe") {
        "Newer kernel + drivers backported for fresh hardware"
    } else if str_eq(feat, "gdx") {
        "GNOME-focused developer toolchain"
    } else if str_eq(feat, "deck") {
        "Tuned for Steam Deck hardware (gamescope, Steam shell)"
    } else if str_eq(feat, "asus") {
        "Kernel patches for ASUS ROG Ally / Strix laptops"
    } else if str_eq(feat, "surface") {
        "Linux-surface kernel + camera fix-ups"
    } else if str_eq(feat, "framework") {
        "Power profiles + fingerprint reader support"
    } else {
        "Additional ublue extras"
    }
}

/// What a feature holds.
#[verifier::ext_equal]
pub struct FeatureView {
    pub id: Seq<char>,
    pub display_name: Seq<char>,
    pub subtitle: Seq<char>,
}

impl View for Feature {
    type V = FeatureView;

    open spec fn view(&self) -> FeatureView {
        FeatureView {
            id: self.id@,
            display_name: self.display_name@,
            subtitle: self.subtitle@,
        }
    }
}

/// The views of a list of features.
pub open spec fn feature_views(list: Seq<Feature>) -> Seq<FeatureView> {
    list.map_values(|f: Feature| f@)
}

/// The feature of a suffix.
pub open spec fn feature_of(id: Seq<char>) -> FeatureView {
    FeatureView { id, display_name: feature_name(id), subtitle: feature_about(id) }
}

/// A family as frontends show it: its features are those that its images add, each
/// once, in alphabetical order.
pub open spec fn shows_family(info: FamilyInfo, family: FamilyView) -> bool {
    let ids = feature_views(info.features@).map_values(|f: FeatureView| f.id);
    &&& info.name@ == family.name
    &&& info.base_image@ == family.base_image()
    &&& strictly_ascending(ids)
    &&& forall|x: Seq<char>| #[trigger] ids.contains(x) <==> family.has_feature(x)
    &&& forall|i: int|
        0 <= i < info.features@.len() ==> (#[trigger] info.features@[i])@ == feature_of(
            info.features@[i].id@,
        )
}

/// A family as frontends show it.
pub fn family_info(family: &Family) -> (res: FamilyInfo)
    ensures
        shows_family(res, family@),
{
    let atoms = family.available_features();
    let mut features: Vec<Feature> = Vec::new();
    let mut i: usize = 0;
    while i < atoms.len()
        invariant
            i <= atoms@.len(),
            features@.len() == i,
            forall|k: int|
                0 <= k < i ==> (#[trigger] features@[k])@ == feature_of(views(atoms@)[k]),
        decreases atoms@.len() - i,
    {
        let id = atoms[i];
        features.push(
            Feature {
                id: id.to_owned(),
                display_name: feature_display_name(id).to_owned(),
                subtitle: feature_subtitle(id).to_owned(),
            },
        );
        i = i + 1;
    }
    proof {
        let ids = feature_views(features@).map_values(|f: FeatureView| f.id);
        assert forall|k: int| 0 <= k < ids.len() implies ids[k] == views(atoms@)[k] by {
            assert(features@[k]@ == feature_of(views(atoms@)[k]));
        }
        assert(ids =~= views(atoms@));
    }
    FamilyInfo {
        name: family.name.to_owned(),
        base_image: family.base_image().to_owned(),
        features,
    }
}

/// Families of this name.
pub open spec fn is_named(name: Seq<char>) -> spec_fn(FamilyView) -> bool {
    |f: FamilyView| f.name == name
}

/// The image of a known family with exactly these features, at the default stream of
/// the family: the first one that it publishes under. Nothing where no such image is
/// published.
pub open spec fn resolved_target(
    family: Seq<char>,
    features: Seq<Seq<char>>,
) -> Option<ImageRefView> {
    let known = catalogue().filter(is_named(family));
    if known.len() == 0 || known[0].streams.len() == 0 {
        None
    } else {
        match known[0].select(features) {
            Some(image) => Some(
                ImageRefView {
                    registry: "ghcr.io"@,
                    org: known[0].org,
                    image,
                    tag: known[0].streams[0],
                },
            ),
            None => None,
        }
    }
}

/// The first known family of this name.
fn family_named(name: &str) -> (res: Option<Family>)
    ensures
        ({
            let known = catalogue().filter(is_named(name@));
            match res {
                Some(f) => known.len() > 0 && f@ == known[0],
                None => known.len() == 0,
            }
        }),
{
    let families = known_families();
    let ghost list = families@;
    let ghost all = family_views(list);
    let ghost test = is_named(name@);
    let mut found: Option<Family> = None;
    proof {
        reveal(Seq::filter);
        assert(all.take(0).filter(test).len() == 0);
    }
    for f in it: families.into_iter()
        invariant
            it.seq() == list,
            all == family_views(list),
            test == is_named(name@),
            found is Some <==> all.take(it.index() as int).filter(test).len() > 0,
            found matches Some(g) ==> g@ == all.take(it.index() as int).filter(test)[0],
    {
        proof {
            let i = it.index() as int;
            reveal(Seq::filter);
            assert(all.take(i + 1).drop_last() =~= all.take(i));
            assert(all.take(i + 1).last() == f@);
        }
        if found.is_none() && str_eq(f.name, name) {
            found = Some(f);
        }
    }
    assert(all.take(all.len() as int) =~= all);
    found
}

/// The updater service over `bootc` and the image registry.
#[derive(Debug, Clone, Copy)]
pub struct BootcUpdaterService;

impl Default for BootcUpdaterService {
    fn default() -> (res: BootcUpdaterService)
        ensures
            res == BootcUpdaterService,
    {
        BootcUpdaterService
    }
}

/// The view of an image reference or of the error in its place.
pub open spec fn image_result(r: Result<ImageRef, ServiceError>) -> Result<
    ImageRefView,
    ServiceErrorView,
> {
    match r {
        Ok(image) => Ok(image@),
        Err(e) => Err(e@),
    }
}

/// The versions to list of those that were fetched.
pub open spec fn listed_versions(
    fetched: Result<Seq<ImageVersionView>, RegistryErrorView>,
    max: int,
) -> Result<Seq<ImageVersionView>, ServiceErrorView> {
    match fetched {
        Ok(list) => Ok(at_most(newest_versions_first(list), max)),
        Err(e) => Err(ServiceErrorView::Registry(registry_error_text(e))),
    }
}

/// The client for the versions of an image.
pub open spec fn client_of_image(image: ImageRefView) -> ClientView {
    ClientView {
        registry: image.registry,
        org: image.org,
        image: image.image,
        stream: image.tag,
    }
}

/// The running image, where it was detected, and the error where it was not.
pub open spec fn detected_image(client: Option<ClientView>) -> Result<
    ImageRefView,
    ServiceErrorView,
> {
    match client {
        Some(c) => Ok(
            ImageRefView { registry: c.registry, org: c.org, image: c.image, tag: c.stream },
        ),
        None => Err(ServiceErrorView::NotFound("no booted image detected"@)),
    }
}

impl BootcUpdaterService {
    /// The running image, where it was detected.
    pub fn current_image(&self, detected: &Option<RegistryClient>) -> (res: Result<
        ImageRef,
        ServiceError,
    >)
        ensures
            image_result(res) == detected_image(optional_client(*detected)),
    {
        match detected {
            Some(client) => Ok(
                ImageRef {
                    registry: client.registry().to_owned(),
                    org: client.org().to_owned(),
                    image: client.image().to_owned(),
                    tag: client.stream().to_owned(),
                },
            ),
            None => Err(ServiceError::NotFound("no booted image detected".to_owned())),
        }
    }

    /// The family of the running image, where it was detected and belongs to one.
    pub fn current_family(&self, detected: &Option<RegistryClient>) -> (res: Option<FamilyInfo>)
        ensures
            match res {
                Some(info) => detected matches Some(client) && best_of(
                    catalogue().filter(holds_image(client@.org, client@.image)),
                    client@.stream,
                ) matches Some(f) && shows_family(info, f),
                None => detected matches Some(client) ==> best_of(
                    catalogue().filter(holds_image(client@.org, client@.image)),
                    client@.stream,
                ) is None,
            },
    {
        match detected {
            Some(client) => match Family::best_match(
                client.org(),
                client.image(),
                client.stream(),
            ) {
                Some(f) => Some(family_info(&f)),
                None => None,
            },
            None => None,
        }
    }

    /// The client whose registry lists the versions of an image.
    pub fn versions_client(&self, image: &ImageRef) -> (res: RegistryClient)
        ensures
            res@ == client_of_image(image@),
    {
        RegistryClient::new(
            image.registry.as_str(),
            image.org.as_str(),
            image.image.as_str(),
            image.tag.as_str(),
        )
    }

    /// The most recent versions among those that were fetched, the newest first, at most
    /// `max` of them. What went wrong at the registry is reported as the registry's error.
    pub fn list_versions(
        &self,
        fetched: &Result<Vec<ImageVersion>, RegistryError>,
        max: usize,
    ) -> (res: Result<Vec<ImageVersion>, ServiceError>)
        ensures
            match res {
                Ok(versions) => listed_versions(versions_result(*fetched), max as int) == Ok::<
                    Seq<ImageVersionView>,
                    ServiceErrorView,
                >(version_views(versions@)),
                Err(error) => listed_versions(versions_result(*fetched), max as int) == Err::<
                    Seq<ImageVersionView>,
                    ServiceErrorView,
                >(error@),
            },
    {
        match fetched {
            Ok(list) => Ok(newest_versions(list, max)),
            Err(e) => Err(ServiceError::Registry(e.message())),
        }
    }

    /// The image to switch to for a family with the selected features; nothing where no
    /// such image is published.
    pub fn resolve_target(&self, family: &FamilyInfo, features: &[String]) -> (res: Option<
        ImageRef,
    >)
        ensures
            match res {
                Some(r) => resolved_target(family.name@, owned_views(features@)) == Some(r@),
                None => resolved_target(family.name@, owned_views(features@)) is None,
            },
    {
        match family_named(family.name.as_str()) {
            None => None,
            Some(f) => {
                let mut want: Vec<&str> = Vec::new();
                let mut i: usize = 0;
                while i < features.len()
                    invariant
                        i <= features@.len(),
                        views(want@) == owned_views(features@).take(i as int),
                    decreases features@.len() - i,
                {
                    let ghost before = want@;
                    want.push(features[i].as_str());
                    proof {
                        assert(views(want@) =~= views(before).push(features@[i as int]@));
                        assert(owned_views(features@).take(i + 1) =~= owned_views(features@).take(
                            i as int,
                        ).push(features@[i as int]@));
                    }
                    i = i + 1;
                }
                assert(owned_views(features@).take(i as int) =~= owned_views(features@));
                assert(views(f.streams@).len() == f.streams@.len());
                if f.streams.len() == 0 {
                    return None;
                }
                let tag = f.streams[0];
                assert(views(f.streams@)[0] == tag@);
                match f.select_image_for_features(want.as_slice()) {
                    Some(image) => Some(
                        ImageRef {
                            registry: "ghcr.io".to_owned(),
                            org: f.org.to_owned(),
                            image: image.to_owned(),
                            tag: tag.to_owned(),
                        },
                    ),
                    None => None,
                }
            },
        }
    }

    /// Switching with progress is not supported: the answer is always that error.
    pub fn switch_image(&self, _target: &ImageRef) -> (res: ServiceError)
        ensures
            res@ == ServiceErrorView::Unsupported(
                "switch_image streaming not yet implemented; use run_bootc_switch directly"@,
            ),
    {
        ServiceError::Unsupported(
            "switch_image streaming not yet implemented; use run_bootc_switch directly".to_owned(),
        )
    }
}

/// A resolved target is an image of a known family of that name, in its organisation
/// and under one of its own streams, and it is the one that the features select. The
/// order in which the features are named does not matter.
pub proof fn law_resolved_target(family: Seq<char>, a: Seq<Seq<char>>, b: Seq<Seq<char>>)
    requires
        a.to_multiset() == b.to_multiset(),
    ensures
        resolved_target(family, a) == resolved_target(family, b),
        resolved_target(family, a) matches Some(r) ==> exists|f: FamilyView|
            #[trigger] catalogue().contains(f) && f.name == family && f.org == r.org
                && f.images.contains(r.image) && f.select(a) == Some(r.image)
                && f.streams.contains(r.tag) && r.tag == f.streams[0] && r.registry == "ghcr.io"@,
{
    let known = catalogue().filter(is_named(family));
    if known.len() > 0 {
        law_selection_order_free(known[0], a, b);
        catalogue().lemma_filter_pred(is_named(family), 0);
        assert(known.contains(known[0]));
        catalogue().lemma_filter_contains_rev(is_named(family), known[0]);
        if known[0].streams.len() > 0 {
            assert(known[0].streams.contains(known[0].streams[0]));
        }
        if known[0].select(a) is Some {
            law_selection_published(known[0], a, known[0].select(a).unwrap());
        }
    }
}

/// A reference is its four parts with two slashes and a colon between them.
pub proof fn law_reference_text(r: ImageRefView)
    ensures
        r.text() == r.registry + "/"@ + r.org + "/"@ + r.image + ":"@ + r.tag,
        r.text().len() == r.registry.len() + r.org.len() + r.image.len() + r.tag.len() + 3,
{
    reveal_strlit("/");
    reveal_strlit(":");
}

/// The running image is the detected one, part by part; without a detected one there is
/// an error, and it says so.
pub proof fn law_detected_image(client: ClientView)
    ensures
        detected_image(Some(client)) matches Ok(r) && r.registry == client.registry && r.org
            == client.org && r.image == client.image && r.tag == client.stream,
        detected_image(None) matches Err(e) && service_error_text(e)
            == "not found: "@ + "no booted image detected"@,
{
}

/// A family is shown with its own name and base, and with a switch for a feature exactly
/// where one of its images adds the feature; no feature has two switches.
pub proof fn law_family_shown(info: FamilyInfo, f: FamilyView, x: Seq<char>)
    requires
        shows_family(info, f),
        f.images.len() > 0,
    ensures
        info.name@ == f.name,
        info.base_image@ == f.images[0],
        f.has_feature(x) <==> exists|i: int|
            0 <= i < info.features@.len() && (#[trigger] info.features@[i]).id@ == x,
        forall|i: int, j: int|
            0 <= i < j < info.features@.len() ==> (#[trigger] info.features@[i]).id@ != (
            #[trigger] info.features@[j]).id@,
        forall|i: int|
            0 <= i < info.features@.len() ==> (#[trigger] info.features@[i]).display_name@
                == feature_name(info.features@[i].id@) && info.features@[i].subtitle@
                == feature_about(info.features@[i].id@),
{
    let ids = feature_views(info.features@).map_values(|f: FeatureView| f.id);
    assert(ids.len() == info.features@.len());
    assert forall|i: int| 0 <= i < ids.len() implies #[trigger] ids[i]
        == info.features@[i].id@ by {}
    assert(ids.contains(x) <==> f.has_feature(x));
    if ids.contains(x) {
        let i = choose|i: int| 0 <= i < ids.len() && ids[i] == x;
        assert(info.features@[i].id@ == x);
    }
    if exists|i: int| 0 <= i < info.features@.len() && (#[trigger] info.features@[i]).id@ == x {
        let i = choose|i: int|
            0 <= i < info.features@.len() && (#[trigger] info.features@[i]).id@ == x;
        assert(ids[i] == x);
    }
    assert forall|i: int, j: int| 0 <= i < j < info.features@.len() implies (
    #[trigger] info.features@[i]).id@ != (#[trigger] info.features@[j]).id@ by {
        assert(ids[i] != ids[j]);
    }
    assert forall|i: int| 0 <= i < info.features@.len() implies (
    #[trigger] info.features@[i]).display_name@ == feature_name(info.features@[i].id@)
        && info.features@[i].subtitle@ == feature_about(info.features@[i].id@) by {
        assert(info.features@[i]@ == feature_of(info.features@[i].id@));
    }
}

/// The errors of the service, in words.
pub proof fn law_service_errors(text: Seq<char>)
    ensures
        service_error_text(ServiceErrorView::Registry(text)) == "registry: "@ + text,
        service_error_text(ServiceErrorView::Io(text)) == "io: "@ + text,
        service_error_text(ServiceErrorView::Unsupported(text)) == "unsupported: "@ + text,
        service_error_text(ServiceErrorView::NotFound(text)) == "not found: "@ + text,
{
}

/// The listed versions are the newest of those that were fetched, the newest first, and
/// as many as asked for or all; an error of the registry is passed on in its words.
pub proof fn law_listed_versions(
    list: Seq<ImageVersionView>,
    max: int,
    error: RegistryErrorView,
)
    requires
        0 <= max,
    ensures
        listed_versions(Ok(list), max) matches Ok(versions) && {
            &&& versions.len() == if max < list.len() {
                max
            } else {
                list.len() as int
            }
            &&& forall|i: int, j: int|
                0 <= i < j < versions.len() ==> (#[trigger] versions[i]).date.spec_key() >= (
                #[trigger] versions[j]).date.spec_key()
            &&& max >= list.len() ==> versions.to_multiset() == list.to_multiset()
            &&& forall|k: int, i: int|
                0 <= k < list.len() && 0 <= i < versions.len() ==> versions.contains(
                    #[trigger] list[k],
                ) || (#[trigger] versions[i]).date.spec_key() >= list[k].date.spec_key()
        },
        listed_versions(Err(error), max) matches Err(e) && service_error_text(e) == "registry: "@
            + registry_error_text(error),
{
    broadcast use vstd::seq_lib::group_to_multiset_ensures;

    law_versions_sorted(list, max as nat);
    let down = newest_versions_first(list);
    let versions = at_most(down, max);
    assert(down.to_multiset().len() == list.to_multiset().len());
    assert(down.len() == list.len());
    assert forall|i: int| 0 <= i < versions.len() implies #[trigger] versions[i] == down[i] by {}
    assert forall|k: int, i: int|
        0 <= k < list.len() && 0 <= i < versions.len() implies versions.contains(
        #[trigger] list[k],
    ) || (#[trigger] versions[i]).date.spec_key() >= list[k].date.spec_key() by {
        assert(list.contains(list[k]));
        assert(list.to_multiset().count(list[k]) > 0);
        assert(down.to_multiset().count(list[k]) > 0);
        assert(down.contains(list[k]));
        let m = choose|m: int| 0 <= m < down.len() && down[m] == list[k];
        if m < versions.len() {
            assert(versions[m] == list[k]);
        }
    }
}

/// The versions of an image are those of the client that is detected as that image.
pub proof fn law_client_of_image(r: ImageRefView)
    ensures
        client_of_image(r).registry == r.registry,
        client_of_image(r).org == r.org,
        client_of_image(r).image == r.image,
        client_of_image(r).stream == r.tag,
        detected_image(Some(client_of_image(r))) == Ok::<ImageRefView, ServiceErrorView>(r),
{
}

/// The target of a family is an image of the first family of that name, at its first
/// stream, exactly where the family has an image with just these features; a name that no
/// family has leads nowhere.
pub proof fn law_known_target(family: Seq<char>, features: Seq<Seq<char>>, i: int)
    ensures
        0 <= i < catalogue().len() && catalogue()[i].name == family && (forall|j: int|
            0 <= j < i ==> (#[trigger] catalogue()[j]).name != family)
            && catalogue()[i].streams.len() > 0 ==> {
            let target = resolved_target(family, features);
            &&& catalogue()[i].select(features) is None ==> target is None
            &&& catalogue()[i].select(features) matches Some(image) ==> target == Some(
                ImageRefView {
                    registry: "ghcr.io"@,
                    org: catalogue()[i].org,
                    image,
                    tag: catalogue()[i].streams[0],
                },
            )
        },
        (forall|j: int| 0 <= j < catalogue().len() ==> (#[trigger] catalogue()[j]).name != family)
            ==> resolved_target(family, features) is None,
{
    let all = catalogue();
    let test = is_named(family);
    if 0 <= i < all.len() && all[i].name == family && (forall|j: int|
        0 <= j < i ==> (#[trigger] all[j]).name != family) {
        assert forall|j: int| 0 <= j < i implies !test(#[trigger] all[j]) by {}
        lemma_first_passing(all, test, i);
    }
    if forall|j: int| 0 <= j < all.len() ==> (#[trigger] all[j]).name != family {
        assert forall|j: int| 0 <= j < all.len() implies !test(#[trigger] all[j]) by {}
        lemma_none_passing(all, test);
    }
}

/// The features that have words of their own, and the words for every other one.
pub proof fn law_feature_words(x: Seq<char>)
    ensures
        x == "nvidia"@ ==> feature_name(x) == "NVIDIA drivers (proprietary)"@ && feature_about(x)
            == "Use the closed-source NVIDIA driver"@,
        x == "open"@ ==> feature_name(x) == "NVIDIA open kernel modules"@ && feature_about(x)
            == "Use Mesa's NVK / NVIDIA open-source kernel driver"@,
        x == "dx"@ ==> feature_name(x) == "Developer extras (DX)"@ && feature_about(x)
            == "Includes container tools, IDEs, and language SDKs"@,
        x == "hwe"@ ==> feature_name(x) == "Hardware-enablement kernel (HWE)"@ && feature_about(x)
            == "Newer kernel + drivers backported for fresh hardware"@,
        x == "gdx"@ ==> feature_name(x) == "GNOME Developer extras (GDX)"@ && feature_about(x)
            == "GNOME-focused developer toolchain"@,
        x == "deck"@ ==> feature_name(x) == "Steam Deck profile"@ && feature_about(x)
            == "Tuned for Steam Deck hardware (gamescope, Steam shell)"@,
        x == "asus"@ ==> feature_name(x) == "ASUS ROG tuning"@ && feature_about(x)
            == "Kernel patches for ASUS ROG Ally / Strix laptops"@,
        x == "surface"@ ==> feature_name(x) == "Microsoft Surface kernel"@ && feature_about(x)
            == "Linux-surface kernel + camera fix-ups"@,
        x == "framework"@ ==> feature_name(x) == "Framework laptop tuning"@ && feature_about(x)
            == "Power profiles + fingerprint reader support"@,
        x != "nvidia"@ && x != "open"@ && x != "dx"@ && x != "hwe"@ && x != "gdx"@ && x != "deck"@
            && x != "asus"@ && x != "surface"@ && x != "framework"@ ==> feature_name(x)
            == "Variant feature"@ && feature_about(x) == "Additional ublue extras"@,
{
    reveal_strlit("nvidia");
    reveal_strlit("open");
    reveal_strlit("dx");
    reveal_strlit("hwe");
    reveal_strlit("gdx");
    reveal_strlit("deck");
    reveal_strlit("asus");
    reveal_strlit("surface");
    reveal_strlit("framework");
    assert("nvidia"@.len() == 6 && "dx"@.len() == 2 && "surface"@.len() == 7 && "framework"@.len()
        == 9);
    assert("hwe"@[0] != "gdx"@[0]);
    assert("open"@[0] == 'o' && "deck"@[0] == 'd' && "asus"@[0] == 'a');
}

} // verus!
