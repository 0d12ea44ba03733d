//! Which image runs, and which builds of it a registry offers.

use crate::date::{
    compact_date, compact_value, days_before_year, days_earlier, earlier, law_compact_round_trip,
    law_days_without_gaps, law_key_orders_days, lemma_day_number_bound, parse_rfc3339,
    rfc3339_value, CalendarDate, MIN_YEAR, Timestamp,
};
use crate::family::{best_of, catalogue, holds_image, law_best_match, Family};
use crate::json::{json_at, json_node_at, JsonNode, NodeView};
use crate::order::{
    arranged, by_key, by_text, law_arranged_by_key, law_arranged_by_text, positions_by_key,
    positions_by_text, sorted_positions,
};
use crate::service::{law_reference_round_trip, parse_reference, ImageRef, ImageRefView};
use crate::settings::{MockIdentity, Settings};
use crate::tag::{
    build_day, is_bare_day, law_forms_agree, law_tags_without_day, parse_dated_tag, stream_of,
    strip_date_suffix,
};
use crate::text::{
    all_digits, begins_with, byte_len, contains_str, contains_text, find_str, find_text,
    first_chars, first_of, is_digit, join, join_from, law_find_text, law_join_split, law_lines,
    law_split_concat, law_split_join, law_trim_quotes, lemma_find_text, lemma_split_nonempty,
    lex_le, lines, lines_of, owned_views, split, split_char, starts_with, str_eq, strip_prefix,
    to_chars, trim_char, trim_matches, views,
};
use crate::text_map::TextMap;
use vstd::prelude::*;
use vstd::utf8::encode_utf8;

verus! {

/// A dated build that can be switched to.
#[derive(Debug, Clone)]
pub struct ImageVersion {
    /// The day of the build, in UTC.
    pub date: CalendarDate,
    /// The full image reference, as `bootc switch` takes it.
    pub full_ref: String,
    /// The version for people.
    pub version: String,
    /// The version of the kernel.
    pub kernel: String,
    /// The first characters of the commit that was built.
    pub revision: String,
    /// When the image was built.
    pub created: Timestamp,
}

/// What a build holds.
#[verifier::ext_equal]
pub struct ImageVersionView {
    pub date: CalendarDate,
    pub full_ref: Seq<char>,
    pub version: Seq<char>,
    pub kernel: Seq<char>,
    pub revision: Seq<char>,
    pub created: Timestamp,
}

impl View for ImageVersion {
    type V = ImageVersionView;

    open spec fn view(&self) -> ImageVersionView {
        ImageVersionView {
            date: self.date,
            full_ref: self.full_ref@,
            version: self.version@,
            kernel: self.kernel@,
            revision: self.revision@,
            created: self.created,
        }
    }
}

/// The views of a list of builds.
pub open spec fn version_views(list: Seq<ImageVersion>) -> Seq<ImageVersionView> {
    list.map_values(|v: ImageVersion| v@)
}

/// Why a registry gives no builds.
#[derive(Debug, Clone)]
pub enum RegistryError {
    /// The registry could not be asked, and why.
    Network(String),
    /// The stream has no dated builds.
    NoTags(String),
    /// The running image is not known.
    NoCurrentImage,
}

/// What an error holds.
pub enum RegistryErrorView {
    Network(Seq<char>),
    NoTags(Seq<char>),
    NoCurrentImage,
}

impl View for RegistryError {
    type V = RegistryErrorView;

    open spec fn view(&self) -> RegistryErrorView {
        match self {
            RegistryError::Network(reason) => RegistryErrorView::Network(reason@),
            RegistryError::NoTags(stream) => RegistryErrorView::NoTags(stream@),
            RegistryError::NoCurrentImage => RegistryErrorView::NoCurrentImage,
        }
    }
}

/// The error in words.
pub open spec fn registry_error_text(error: RegistryErrorView) -> Seq<char> {
    match error {
        RegistryErrorView::Network(reason) => "Network error: "@ + reason,
        RegistryErrorView::NoTags(stream) => "No dated tags found for stream '"@ + stream + "'"@,
        RegistryErrorView::NoCurrentImage =>
            "Unable to detect current image — is bootc installed?"@,
    }
}

impl RegistryError {
    /// The error in words.
    pub fn message(&self) -> (res: String)
        ensures
            res@ == registry_error_text(self@),
    {
        match self {
            RegistryError::Network(reason) => {
                let mut text: String = "Network error: ".to_owned();
                text.append(reason.as_str());
                text
            },
            RegistryError::NoTags(stream) => {
                let mut text: String = "No dated tags found for stream '".to_owned();
                text.append(stream.as_str());
                text.append("'");
                text
            },
            RegistryError::NoCurrentImage =>
                "Unable to detect current image — is bootc installed?".to_owned(),
        }
    }
}

/// A sibling of an image within its family.
#[derive(Debug, Clone, PartialEq)]
pub struct VariantRef {
    /// The bare image name.
    pub image: String,
    /// The name for people: every part begins with a capital.
    pub display_name: String,
    /// The full image reference at the current stream.
    pub full_ref: String,
}

/// What a variant holds.
#[verifier::ext_equal]
pub struct VariantRefView {
    pub image: Seq<char>,
    pub display_name: Seq<char>,
    pub full_ref: Seq<char>,
}

impl View for VariantRef {
    type V = VariantRefView;

    open spec fn view(&self) -> VariantRefView {
        VariantRefView {
            image: self.image@,
            display_name: self.display_name@,
            full_ref: self.full_ref@,
        }
    }
}

/// The views of a list of variants.
pub open spec fn variant_views(list: Seq<VariantRef>) -> Seq<VariantRefView> {
    list.map_values(|v: VariantRef| v@)
}

/// Builds of one stream of an image in a registry.
#[derive(Debug, Clone)]
pub struct RegistryClient {
    registry: String,
    org: String,
    image: String,
    stream: String,
}

/// What a client is asking for.
#[verifier::ext_equal]
pub struct ClientView {
    pub registry: Seq<char>,
    pub org: Seq<char>,
    pub image: Seq<char>,
    pub stream: Seq<char>,
}

impl View for RegistryClient {
    type V = ClientView;

    closed spec fn view(&self) -> ClientView {
        ClientView {
            registry: self.registry@,
            org: self.org@,
            image: self.image@,
            stream: self.stream@,
        }
    }
}

/// The view of a client that may be missing.
pub open spec fn optional_client(c: Option<RegistryClient>) -> Option<ClientView> {
    match c {
        Some(client) => Some(client@),
        None => None,
    }
}

impl ClientView {
    /// The reference of an image of the same registry and organisation.
    pub open spec fn reference(self, image: Seq<char>, tag: Seq<char>) -> Seq<char> {
        self.registry + "/"@ + self.org + "/"@ + image + ":"@ + tag
    }

    /// Where the registry keeps the manifest of a tag.
    pub open spec fn manifest_address(self, image: Seq<char>, tag: Seq<char>) -> Seq<char> {
        "https://"@ + self.registry + "/v2/"@ + self.org + "/"@ + image + "/manifests/"@ + tag
    }

    /// Where the registry lists the tags of the image.
    pub open spec fn tags_address(self) -> Seq<char> {
        "https://"@ + self.registry + "/v2/"@ + self.org + "/"@ + self.image
            + "/tags/list?n=1000"@
    }

    /// Where the registry hands out tokens for reading the image.
    pub open spec fn token_address(self) -> Seq<char> {
        "https://"@ + self.registry + "/token?scope=repository:"@ + self.org + "/"@ + self.image
            + ":pull&service="@ + self.registry
    }
}

/// The stream that a tag stands for: the tag without the day at its end.
pub open spec fn stream_or_tag(tag: Seq<char>) -> Seq<char> {
    match stream_of(tag) {
        Some(stream) => stream,
        None => tag,
    }
}

fn stream_of_tag(tag: &str) -> (res: String)
    ensures
        res@ == stream_or_tag(tag@),
{
    match strip_date_suffix(tag) {
        Some(stream) => stream,
        None => tag.to_owned(),
    }
}

/// The client for the stream of a dated image reference.
pub open spec fn client_of_reference(image_ref: Seq<char>) -> Option<ClientView> {
    match parse_reference(image_ref) {
        Some(r) => match stream_of(r.tag) {
            Some(stream) => Some(
                ClientView { registry: r.registry, org: r.org, image: r.image, stream },
            ),
            None => None,
        },
        None => None,
    }
}

/// The client for the stream of a dated image reference such as
/// `ghcr.io/ublue-os/bluefin:stable-daily-43.20260222`; nothing where a part is
/// missing or the tag has no day.
pub fn parse_image_ref(image_ref: &str) -> (res: Option<RegistryClient>)
    ensures
        optional_client(res) == client_of_reference(image_ref@),
{
    match ImageRef::parse(image_ref) {
        Some(r) => match strip_date_suffix(r.tag.as_str()) {
            Some(stream) => Some(
                RegistryClient { registry: r.registry, org: r.org, image: r.image, stream },
            ),
            None => None,
        },
        None => None,
    }
}

/// The reference of the booted image, from the two places at which a status can keep
/// it. The second counts only where there is nothing at the first.
pub open spec fn booted_reference(first: NodeView, second: NodeView) -> Option<Seq<char>> {
    if first is Absent {
        second.text()
    } else {
        first.text()
    }
}

/// The reference of the booted image, from the two places at which a status can keep
/// it. The second counts only where there is nothing at the first.
pub fn booted_image(first: JsonNode, second: JsonNode) -> (res: Option<String>)
    ensures
        match res {
            Some(s) => booted_reference(first@, second@) == Some(s@),
            None => booted_reference(first@, second@) is None,
        },
{
    match first {
        JsonNode::Absent => second.into_text(),
        other => other.into_text(),
    }
}

/// The reference of the booted image in the output of `bootc status --json`.
pub open spec fn status_reference(document: Seq<u8>) -> Option<Seq<char>> {
    booted_reference(
        json_at(document, "/status/booted/image/image/image"@),
        json_at(document, "/status/booted/image/image"@),
    )
}

/// The reference of the booted image in the output of `bootc status --json`.
pub fn booted_image_of_status(document: &[u8]) -> (res: Option<String>)
    ensures
        match res {
            Some(s) => status_reference(document@) == Some(s@),
            None => status_reference(document@) is None,
        },
{
    let first = json_node_at(document, "/status/booted/image/image/image");
    let second = json_node_at(document, "/status/booted/image/image");
    booted_image(first, second)
}

/// The value of the last line that begins with `key`, without the quotes around it.
pub open spec fn last_value(lines: Seq<Seq<char>>, key: Seq<char>) -> Option<Seq<char>>
    decreases lines.len(),
{
    if lines.len() == 0 {
        None
    } else if begins_with(lines.last(), key) {
        Some(trim_char(lines.last().skip(key.len() as int), '"'))
    } else {
        last_value(lines.drop_last(), key)
    }
}

pub(crate) fn last_value_of<'a>(lines: &Vec<&'a str>, key: &str) -> (res: Option<&'a str>)
    ensures
        match res {
            Some(v) => last_value(views(lines@), key@) == Some(v@),
            None => last_value(views(lines@), key@) is None,
        },
{
    let mut found: Option<&'a str> = None;
    let mut i: usize = 0;
    while i < lines.len()
        invariant
            i <= lines@.len(),
            match found {
                Some(v) => last_value(views(lines@).take(i as int), key@) == Some(v@),
                None => last_value(views(lines@).take(i as int), key@) is None,
            },
        decreases lines@.len() - i,
    {
        proof {
            let all = views(lines@);
            assert(all.take(i + 1).drop_last() =~= all.take(i as int));
            assert(all.take(i + 1).last() == lines@[i as int]@);
        }
        if let Some(rest) = strip_prefix(lines[i], key) {
            found = Some(trim_matches(rest, '"'));
        }
        i = i + 1;
    }
    assert(views(lines@).take(i as int) =~= views(lines@));
    found
}

/// What stands behind `docker://`; all of it where that does not occur.
pub open spec fn without_transport(r: Seq<char>) -> Seq<char> {
    if find_text(r, "docker://"@) >= 0 {
        r.skip(find_text(r, "docker://"@) + 9)
    } else {
        r
    }
}

/// The client of an image reference and a tag of the release file.
pub open spec fn client_of_release_ref(
    image_ref: Seq<char>,
    image_tag: Option<Seq<char>>,
) -> Option<ClientView> {
    let parts = split(without_transport(image_ref), '/');
    if parts.len() >= 3 {
        Some(
            ClientView {
                registry: parts[0],
                org: parts[1],
                image: join(parts.skip(2), "/"@),
                stream: stream_or_tag(
                    match image_tag {
                        Some(tag) => tag,
                        None => "latest"@,
                    },
                ),
            },
        )
    } else {
        None
    }
}

/// The organisation that publishes an image, by the name of the image.
pub open spec fn org_of_image(image: Seq<char>) -> Seq<char> {
    if contains_text(image, "dakota"@) || contains_text(image, "bluefin"@) || contains_text(
        image,
        "aurora"@,
    ) {
        "projectbluefin"@
    } else {
        "ublue-os"@
    }
}

/// The client of an image name and a version of the release file.
pub open spec fn client_of_release_id(image: Seq<char>, version: Seq<char>) -> ClientView {
    ClientView {
        registry: "ghcr.io"@,
        org: org_of_image(image),
        image,
        stream: if version == "latest"@ {
            "latest"@
        } else {
            "stable-daily-"@ + version
        },
    }
}

/// The client that the values of a release file describe. The image reference goes
/// before the image name.
pub open spec fn client_of_release(
    image_ref: Option<Seq<char>>,
    image_tag: Option<Seq<char>>,
    image_id: Option<Seq<char>>,
    version_id: Option<Seq<char>>,
) -> Option<ClientView> {
    let by_ref = match image_ref {
        Some(r) => client_of_release_ref(r, image_tag),
        None => None,
    };
    if by_ref is Some {
        by_ref
    } else if image_id is Some && version_id is Some {
        Some(client_of_release_id(image_id.unwrap(), version_id.unwrap()))
    } else {
        None
    }
}

/// The client that a release file describes.
pub open spec fn release_client(content: Seq<char>) -> Option<ClientView> {
    let lines = lines_of(content);
    client_of_release(
        last_value(lines, "IMAGE_REF="@),
        last_value(lines, "IMAGE_TAG="@),
        last_value(lines, "IMAGE_ID="@),
        last_value(lines, "VERSION_ID="@),
    )
}

/// What detecting the running image has come to.
#[derive(Debug)]
pub enum DetectEvent {
    /// Nothing has been asked yet.
    Start,
    /// What `bootc status --json` printed; nothing where it failed.
    BootcStatus(Option<Vec<u8>>),
    /// What the release file holds; nothing where it cannot be read.
    OsRelease(Option<String>),
}

/// What to do next to detect the running image.
#[derive(Debug)]
pub enum DetectStep {
    /// Ask `bootc status --json`.
    AskBootc,
    /// Read the release file.
    ReadOsRelease,
    /// The image is known.
    Found(RegistryClient),
    /// The image cannot be told.
    Unknown,
}

/// What a step of the detection holds.
pub enum DetectStepView {
    AskBootc,
    ReadOsRelease,
    Found(ClientView),
    Unknown,
}

impl View for DetectStep {
    type V = DetectStepView;

    open spec fn view(&self) -> DetectStepView {
        match self {
            DetectStep::AskBootc => DetectStepView::AskBootc,
            DetectStep::ReadOsRelease => DetectStepView::ReadOsRelease,
            DetectStep::Found(client) => DetectStepView::Found(client@),
            DetectStep::Unknown => DetectStepView::Unknown,
        }
    }
}

/// The client of the image that the settings pretend to run.
pub open spec fn mock_client(mock: MockIdentity) -> ClientView {
    ClientView {
        registry: mock.registry@,
        org: mock.org@,
        image: mock.image@,
        stream: stream_or_tag(mock.tag@),
    }
}

/// The client that `bootc status --json` describes.
pub open spec fn status_client(document: Seq<u8>) -> Option<ClientView> {
    match status_reference(document) {
        Some(r) => client_of_reference(r),
        None => None,
    }
}

/// The next step of the detection: a pretended image is taken without asking
/// anything; then `bootc` is asked; then the release file is read.
pub open spec fn detection_step(mock: Option<MockIdentity>, event: DetectEvent) -> DetectStepView {
    match event {
        DetectEvent::Start => match mock {
            Some(m) => DetectStepView::Found(mock_client(m)),
            None => DetectStepView::AskBootc,
        },
        DetectEvent::BootcStatus(output) => {
            let client = match output {
                Some(document) => status_client(document@),
                None => None,
            };
            match client {
                Some(c) => DetectStepView::Found(c),
                None => DetectStepView::ReadOsRelease,
            }
        },
        DetectEvent::OsRelease(content) => {
            let client = match content {
                Some(text) => release_client(text@),
                None => None,
            };
            match client {
                Some(c) => DetectStepView::Found(c),
                None => DetectStepView::Unknown,
            }
        },
    }
}

impl RegistryClient {
    /// A client for a stream of an image. The stream is what stands before the day in
    /// the tags, such as `stable-daily-43`.
    pub fn new(registry: &str, org: &str, image: &str, stream: &str) -> (res: RegistryClient)
        ensures
            res@ == (ClientView {
                registry: registry@,
                org: org@,
                image: image@,
                stream: stream@,
            }),
    {
        RegistryClient {
            registry: registry.to_owned(),
            org: org.to_owned(),
            image: image.to_owned(),
            stream: stream.to_owned(),
        }
    }

    /// The host of the registry.
    pub fn registry(&self) -> (res: &str)
        ensures
            res@ == self@.registry,
    {
        self.registry.as_str()
    }

    /// The organisation that owns the image.
    pub fn org(&self) -> (res: &str)
        ensures
            res@ == self@.org,
    {
        self.org.as_str()
    }

    /// The name of the image.
    pub fn image(&self) -> (res: &str)
        ensures
            res@ == self@.image,
    {
        self.image.as_str()
    }

    /// The stream of the image.
    pub fn stream(&self) -> (res: &str)
        ensures
            res@ == self@.stream,
    {
        self.stream.as_str()
    }

    /// The next step to detect the running image, after `event`.
    pub fn detect_with_settings(settings: &Settings, event: &DetectEvent) -> (res: DetectStep)
        ensures
            res@ == detection_step(settings.mock_identity, *event),
    {
        match event {
            DetectEvent::Start => match &settings.mock_identity {
                Some(m) => {
                    let stream = stream_of_tag(m.tag.as_str());
                    DetectStep::Found(
                        RegistryClient::new(
                            m.registry.as_str(),
                            m.org.as_str(),
                            m.image.as_str(),
                            stream.as_str(),
                        ),
                    )
                },
                None => DetectStep::AskBootc,
            },
            DetectEvent::BootcStatus(output) => {
                let client = match output {
                    Some(document) => RegistryClient::detect_from_bootc(document.as_slice()),
                    None => None,
                };
                match client {
                    Some(c) => DetectStep::Found(c),
                    None => DetectStep::ReadOsRelease,
                }
            },
            DetectEvent::OsRelease(content) => {
                let client = match content {
                    Some(text) => RegistryClient::detect_from_os_release(text.as_str()),
                    None => None,
                };
                match client {
                    Some(c) => DetectStep::Found(c),
                    None => DetectStep::Unknown,
                }
            },
        }
    }

    /// The client of the booted image in the output of `bootc status --json`.
    pub fn detect_from_bootc(document: &[u8]) -> (res: Option<RegistryClient>)
        ensures
            optional_client(res) == status_client(document@),
    {
        match booted_image_of_status(document) {
            Some(r) => parse_image_ref(r.as_str()),
            None => None,
        }
    }

    /// The client of the image that a release file describes.
    pub fn detect_from_os_release(content: &str) -> (res: Option<RegistryClient>)
        ensures
            optional_client(res) == release_client(content@),
    {
        let all = lines(content);
        let image_ref = last_value_of(&all, "IMAGE_REF=");
        let image_tag = last_value_of(&all, "IMAGE_TAG=");
        let image_id = last_value_of(&all, "IMAGE_ID=");
        let version_id = last_value_of(&all, "VERSION_ID=");
        if let Some(r) = image_ref {
            proof {
                reveal_strlit("docker://");
            }
            let total: usize = to_chars(r).len();
            let clean: &str = match find_str(r, "docker://") {
                Some(pos) => {
                    assert(r@.subrange(pos + 9, total as int) =~= r@.skip(pos + 9));
                    r.substring_char(pos + 9, total)
                },
                None => r,
            };
            let parts = split_char(clean, '/');
            assert(views(parts@).len() == parts@.len());
            if parts.len() >= 3 {
                proof {
                    assert(views(parts@)[0] == parts@[0]@);
                    assert(views(parts@)[1] == parts@[1]@);
                }
                let image: String = join_from(&parts, 2, "/");
                let tag: &str = match image_tag {
                    Some(t) => t,
                    None => "latest",
                };
                let stream = stream_of_tag(tag);
                return Some(
                    RegistryClient::new(parts[0], parts[1], image.as_str(), stream.as_str()),
                );
            }
        }
        if let Some(image) = image_id {
            if let Some(version) = version_id {
                let org: &str = if contains_str(image, "dakota") || contains_str(image, "bluefin")
                    || contains_str(image, "aurora") {
                    "projectbluefin"
                } else {
                    "ublue-os"
                };
                let stream: String = if str_eq(version, "latest") {
                    "latest".to_owned()
                } else {
                    let mut text: String = "stable-daily-".to_owned();
                    text.append(version);
                    text
                };
                return Some(RegistryClient::new("ghcr.io", org, image, stream.as_str()));
            }
        }
        None
    }

    /// The reference of an image of the same registry and organisation.
    pub fn full_ref(&self, image: &str, tag: &str) -> (res: String)
        ensures
            res@ == self@.reference(image@, tag@),
    {
        let mut text: String = self.registry.as_str().to_owned();
        text.append("/");
        text.append(self.org.as_str());
        text.append("/");
        text.append(image);
        text.append(":");
        text.append(tag);
        text
    }

    /// Where the registry keeps the manifest of a tag.
    pub fn manifest_url(&self, image: &str, tag: &str) -> (res: String)
        ensures
            res@ == self@.manifest_address(image@, tag@),
    {
        let mut text: String = "https://".to_owned();
        text.append(self.registry.as_str());
        text.append("/v2/");
        text.append(self.org.as_str());
        text.append("/");
        text.append(image);
        text.append("/manifests/");
        text.append(tag);
        text
    }

    /// Where the registry lists the tags of the image.
    pub fn tags_url(&self) -> (res: String)
        ensures
            res@ == self@.tags_address(),
    {
        let mut text: String = "https://".to_owned();
        text.append(self.registry.as_str());
        text.append("/v2/");
        text.append(self.org.as_str());
        text.append("/");
        text.append(self.image.as_str());
        text.append("/tags/list?n=1000");
        text
    }

    /// Where the registry hands out tokens for reading the image.
    pub fn token_url(&self) -> (res: String)
        ensures
            res@ == self@.token_address(),
    {
        let mut text: String = "https://".to_owned();
        text.append(self.registry.as_str());
        text.append("/token?scope=repository:");
        text.append(self.org.as_str());
        text.append("/");
        text.append(self.image.as_str());
        text.append(":pull&service=");
        text.append(self.registry.as_str());
        text
    }
}

/// A tag and the day of its build.
#[derive(Debug, Clone)]
pub struct DatedTag {
    pub date: CalendarDate,
    pub tag: String,
}

/// What a dated tag holds.
#[verifier::ext_equal]
pub struct DatedTagView {
    pub date: CalendarDate,
    pub tag: Seq<char>,
}

impl View for DatedTag {
    type V = DatedTagView;

    open spec fn view(&self) -> DatedTagView {
        DatedTagView { date: self.date, tag: self.tag@ }
    }
}

/// The views of a list of dated tags.
pub open spec fn dated_views(list: Seq<DatedTag>) -> Seq<DatedTagView> {
    list.map_values(|t: DatedTag| t@)
}

/// The day is not before the first one that counts.
pub open spec fn recent_enough(day: CalendarDate, first: Option<CalendarDate>) -> bool {
    first matches Some(d) ==> day.spec_key() >= d.spec_key()
}

/// The tags of builds of `stream`, from the first day that counts on, in the order in
/// which they are listed.
pub open spec fn builds_of_stream(
    tags: Seq<Seq<char>>,
    stream: Seq<char>,
    first: Option<CalendarDate>,
) -> Seq<DatedTagView>
    decreases tags.len(),
{
    if tags.len() == 0 {
        Seq::empty()
    } else {
        let front = builds_of_stream(tags.drop_last(), stream, first);
        match build_day(tags.last(), stream) {
            Some(day) => if recent_enough(day, first) {
                front.push(DatedTagView { date: day, tag: tags.last() })
            } else {
                front
            },
            None => front,
        }
    }
}

/// Keys that put later days first.
pub open spec fn newest_keys(list: Seq<DatedTagView>) -> Seq<i64> {
    list.map_values(|t: DatedTagView| (-t.date.spec_key()) as i64)
}

/// The builds with the latest day first; builds of one day stay in their order.
pub open spec fn newest_first(list: Seq<DatedTagView>) -> Seq<DatedTagView> {
    arranged(list, sorted_positions(list.len(), by_key(newest_keys(list))))
}

/// The first `n` items, or all where there are fewer.
pub open spec fn at_most<T>(s: Seq<T>, n: int) -> Seq<T> {
    if n < s.len() {
        s.take(n)
    } else {
        s
    }
}

/// The tags of builds of a stream.
fn stream_builds(tags: &Vec<String>, stream: &str, first: Option<CalendarDate>) -> (res: Vec<
    DatedTag,
>)
    ensures
        dated_views(res@) == builds_of_stream(owned_views(tags@), stream@, first),
        forall|i: int| 0 <= i < res@.len() ==> (#[trigger] res@[i]).date.wf(),
{
    let ghost all = owned_views(tags@);
    let mut out: Vec<DatedTag> = Vec::new();
    let mut i: usize = 0;
    assert(all.take(0) =~= Seq::empty());
    assert(dated_views(out@) =~= Seq::empty());
    while i < tags.len()
        invariant
            i <= tags@.len(),
            all == owned_views(tags@),
            dated_views(out@) == builds_of_stream(all.take(i as int), stream@, first),
            forall|k: int| 0 <= k < out@.len() ==> (#[trigger] out@[k]).date.wf(),
        decreases tags@.len() - i,
    {
        let ghost before = out@;
        let tag = tags[i].as_str();
        proof {
            assert(all.take(i + 1).drop_last() =~= all.take(i as int));
            assert(all.take(i + 1).last() == tag@);
        }
        if let Some(date) = parse_dated_tag(tag, stream) {
            let recent: bool = match first {
                Some(d) => date.key() >= d.key(),
                None => true,
            };
            if recent {
                out.push(DatedTag { date, tag: tag.to_owned() });
                assert(dated_views(out@) =~= dated_views(before).push(
                    DatedTagView { date, tag: tag@ },
                ));
            }
        }
        i = i + 1;
    }
    assert(all.take(i as int) =~= all);
    out
}

/// The first `limit` builds, the latest day first.
fn newest_builds(list: &Vec<DatedTag>, limit: usize) -> (res: Vec<DatedTag>)
    ensures
        dated_views(res@) == at_most(newest_first(dated_views(list@)), limit as int),
{
    let ghost views = dated_views(list@);
    let mut keys: Vec<i64> = Vec::new();
    let mut i: usize = 0;
    while i < list.len()
        invariant
            i <= list@.len(),
            views == dated_views(list@),
            keys@ == newest_keys(views).take(i as int),
        decreases list@.len() - i,
    {
        keys.push(-list[i].date.key());
        proof {
            assert(newest_keys(views)[i as int] == keys@.last());
            assert(keys@ =~= newest_keys(views).take(i + 1));
        }
        i = i + 1;
    }
    assert(keys@ =~= newest_keys(views));
    let order = positions_by_key(&keys);
    let ghost sorted = newest_first(views);
    let ghost ints = order@.map_values(|i: usize| i as int);
    let count: usize = if limit < order.len() {
        limit
    } else {
        order.len()
    };
    let mut out: Vec<DatedTag> = Vec::new();
    let mut j: usize = 0;
    while j < count
        invariant
            j <= count <= order@.len(),
            views == dated_views(list@),
            ints == order@.map_values(|i: usize| i as int),
            sorted == arranged(views, ints),
            forall|k: int| 0 <= k < order@.len() ==> #[trigger] order@[k] < list@.len(),
            dated_views(out@) == sorted.take(j as int),
        decreases count - j,
    {
        let ghost before = out@;
        let at: usize = order[j];
        out.push(DatedTag { date: list[at].date, tag: list[at].tag.as_str().to_owned() });
        proof {
            assert(ints[j as int] == at);
            assert(out@.last()@ =~= views[at as int]);
            assert(dated_views(out@) =~= dated_views(before).push(sorted[j as int]));
            assert(sorted.take(j + 1) =~= sorted.take(j as int).push(sorted[j as int]));
        }
        j = j + 1;
    }
    assert(sorted.len() == order@.len());
    assert(sorted.take(count as int) =~= at_most(sorted, limit as int));
    out
}

/// The newest builds of a stream are builds of it with the latest days: they come in
/// descending order of their days, and no build that is left out has a later day
/// than one that is kept.
pub proof fn law_newest_builds(list: Seq<DatedTagView>, limit: nat)
    ensures
        ({
            let order = sorted_positions(list.len(), by_key(newest_keys(list)));
            let sorted = newest_first(list);
            let kept = at_most(sorted, limit as int);
            &&& sorted.to_multiset() == list.to_multiset()
            &&& kept.len() == if limit < list.len() {
                limit
            } else {
                list.len()
            }
            &&& forall|i: int, j: int|
                0 <= i < j < sorted.len() ==> (#[trigger] sorted[i]).date.spec_key() >= (
                #[trigger] sorted[j]).date.spec_key()
            &&& forall|i: int, j: int|
                0 <= i < kept.len() <= j < sorted.len() ==> (#[trigger] kept[i]).date.spec_key()
                    >= (#[trigger] sorted[j]).date.spec_key()
        }),
{
    let keys = newest_keys(list);
    law_arranged_by_key(list, keys);
    let order = sorted_positions(list.len(), by_key(keys));
    let sorted = newest_first(list);
    assert forall|i: int, j: int| 0 <= i < j < sorted.len() implies (
    #[trigger] sorted[i]).date.spec_key() >= (#[trigger] sorted[j]).date.spec_key() by {
        assert(keys[order[i]] <= keys[order[j]]);
        assert(sorted[i] == list[order[i]]);
        assert(sorted[j] == list[order[j]]);
        assert(keys[order[i]] == (-list[order[i]].date.spec_key()) as i64);
        assert(keys[order[j]] == (-list[order[j]].date.spec_key()) as i64);
    }
}

/// A build of a stream is listed exactly where one of the tags names it and its day
/// counts.
pub proof fn law_builds_of_stream(
    tags: Seq<Seq<char>>,
    stream: Seq<char>,
    first: Option<CalendarDate>,
    build: DatedTagView,
)
    ensures
        builds_of_stream(tags, stream, first).contains(build) <==> tags.contains(build.tag)
            && build_day(build.tag, stream) == Some(build.date) && recent_enough(
            build.date,
            first,
        ),
    decreases tags.len(),
{
    let all = builds_of_stream(tags, stream, first);
    if tags.len() > 0 {
        let rest = tags.drop_last();
        let front = builds_of_stream(rest, stream, first);
        law_builds_of_stream(rest, stream, first, build);
        if front.contains(build) {
            let k = choose|k: int| 0 <= k < front.len() && front[k] == build;
            assert(all[k] == build);
            let m = choose|m: int| 0 <= m < rest.len() && rest[m] == build.tag;
            assert(tags[m] == build.tag);
        }
        if all.contains(build) && !front.contains(build) {
            let k = choose|k: int| 0 <= k < all.len() && all[k] == build;
            if k < front.len() {
                assert(front[k] == build);
            }
            assert(tags[tags.len() - 1] == build.tag);
        }
        if tags.contains(build.tag) && !rest.contains(build.tag) {
            let m = choose|m: int| 0 <= m < tags.len() && tags[m] == build.tag;
            if m < rest.len() {
                assert(rest[m] == build.tag);
            }
            assert(tags.last() == build.tag);
        }
        if tags.last() == build.tag && build_day(build.tag, stream) == Some(build.date)
            && recent_enough(build.date, first) {
            assert(all.last() =~= build);
            assert(all[all.len() - 1] == build);
        }
    }
}

/// A build whose manifest is to be read.
#[derive(Debug, Clone)]
pub struct BuildTarget {
    pub date: CalendarDate,
    pub url: String,
    pub full_ref: String,
}

/// What a build to be read holds.
#[verifier::ext_equal]
pub struct BuildTargetView {
    pub date: CalendarDate,
    pub url: Seq<char>,
    pub full_ref: Seq<char>,
}

impl View for BuildTarget {
    type V = BuildTargetView;

    open spec fn view(&self) -> BuildTargetView {
        BuildTargetView { date: self.date, url: self.url@, full_ref: self.full_ref@ }
    }
}

/// The views of a list of builds to be read.
pub open spec fn target_views(list: Seq<BuildTarget>) -> Seq<BuildTargetView> {
    list.map_values(|t: BuildTarget| t@)
}

/// Which manifests to read to learn the builds of a stream.
#[derive(Debug)]
pub enum VersionPlan {
    /// Those of the dated builds.
    Builds(Vec<BuildTarget>),
    /// There are no dated builds, but there is a latest one.
    Latest(BuildTarget),
    /// There is nothing to read.
    Nothing,
}

/// What a plan holds.
pub enum VersionPlanView {
    Builds(Seq<BuildTargetView>),
    Latest(BuildTargetView),
    Nothing,
}

impl View for VersionPlan {
    type V = VersionPlanView;

    open spec fn view(&self) -> VersionPlanView {
        match self {
            VersionPlan::Builds(list) => VersionPlanView::Builds(target_views(list@)),
            VersionPlan::Latest(target) => VersionPlanView::Latest(target@),
            VersionPlan::Nothing => VersionPlanView::Nothing,
        }
    }
}

impl ClientView {
    /// The build of a tag.
    pub open spec fn target(self, date: CalendarDate, tag: Seq<char>) -> BuildTargetView {
        BuildTargetView {
            date,
            url: self.manifest_address(self.image, tag),
            full_ref: self.reference(self.image, tag),
        }
    }

    /// The builds of dated tags.
    pub open spec fn targets(self, list: Seq<DatedTagView>) -> Seq<BuildTargetView> {
        list.map_values(|t: DatedTagView| self.target(t.date, t.tag))
    }

    /// Which manifests to read for the builds of the last so many days.
    pub open spec fn window(
        self,
        tags: Seq<Seq<char>>,
        today: CalendarDate,
        days: int,
    ) -> VersionPlanView {
        self.plan(tags, today, Some(days_earlier(today, days)), None)
    }

    /// Which manifests to read: those of the dated builds, the newest first, all of them
    /// or no more than a limit; where there are none, that of the tag `latest`, with today
    /// as its day.
    pub open spec fn plan(
        self,
        tags: Seq<Seq<char>>,
        today: CalendarDate,
        first: Option<CalendarDate>,
        limit: Option<int>,
    ) -> VersionPlanView {
        let builds = builds_of_stream(tags, self.stream, first);
        if builds.len() > 0 {
            VersionPlanView::Builds(
                self.targets(
                    match limit {
                        Some(n) => at_most(newest_first(builds), n),
                        None => newest_first(builds),
                    },
                ),
            )
        } else if tags.contains("latest"@) {
            VersionPlanView::Latest(self.target(today, "latest"@))
        } else {
            VersionPlanView::Nothing
        }
    }
}

/// Whether a list of owned strings holds `x`.
fn holds_string(list: &Vec<String>, x: &str) -> (res: bool)
    ensures
        res == owned_views(list@).contains(x@),
{
    let mut i: usize = 0;
    while i < list.len()
        invariant
            i <= list@.len(),
            forall|j: int| 0 <= j < i ==> #[trigger] owned_views(list@)[j] != x@,
        decreases list@.len() - i,
    {
        if str_eq(list[i].as_str(), x) {
            assert(owned_views(list@)[i as int] == x@);
            return true;
        }
        i = i + 1;
    }
    false
}

/// How many builds the home page shows at most.
pub const HISTORY_MAX: usize = 8;

/// How many dated tags are offered for selection.
pub const DATED_TAGS_MAX: usize = 30;

/// Tags longer than this many bytes are not offered.
pub const TAG_BYTES_MAX: usize = 80;

/// The views of builds that may be missing.
pub open spec fn found_views(list: Seq<Option<ImageVersion>>) -> Seq<ImageVersionView>
    decreases list.len(),
{
    if list.len() == 0 {
        Seq::empty()
    } else {
        match list.last() {
            Some(v) => found_views(list.drop_last()).push(v@),
            None => found_views(list.drop_last()),
        }
    }
}

/// Keys that put earlier days first.
pub open spec fn day_keys(list: Seq<ImageVersionView>) -> Seq<i64> {
    list.map_values(|v: ImageVersionView| v.date.spec_key() as i64)
}

/// Keys that put later days first.
pub open spec fn reverse_day_keys(list: Seq<ImageVersionView>) -> Seq<i64> {
    list.map_values(|v: ImageVersionView| (-v.date.spec_key()) as i64)
}

/// The builds with the earliest day first; builds of one day stay in their order.
pub open spec fn oldest_versions_first(list: Seq<ImageVersionView>) -> Seq<ImageVersionView> {
    arranged(list, sorted_positions(list.len(), by_key(day_keys(list))))
}

/// The builds with the latest day first; builds of one day stay in their order.
pub open spec fn newest_versions_first(list: Seq<ImageVersionView>) -> Seq<ImageVersionView> {
    arranged(list, sorted_positions(list.len(), by_key(reverse_day_keys(list))))
}

/// A copy of a build.
pub fn copy_version(v: &ImageVersion) -> (res: ImageVersion)
    ensures
        res@ == v@,
{
    ImageVersion {
        date: v.date,
        full_ref: v.full_ref.as_str().to_owned(),
        version: v.version.as_str().to_owned(),
        kernel: v.kernel.as_str().to_owned(),
        revision: v.revision.as_str().to_owned(),
        created: v.created,
    }
}

fn pick_versions(list: &Vec<ImageVersion>, order: &Vec<usize>, limit: usize) -> (res: Vec<
    ImageVersion,
>)
    requires
        forall|k: int| 0 <= k < order@.len() ==> #[trigger] order@[k] < list@.len(),
    ensures
        version_views(res@) == at_most(
            arranged(version_views(list@), order@.map_values(|i: usize| i as int)),
            limit as int,
        ),
{
    let ghost all = version_views(list@);
    let ghost ints = order@.map_values(|i: usize| i as int);
    let ghost sorted = arranged(all, ints);
    let count: usize = if limit < order.len() {
        limit
    } else {
        order.len()
    };
    let mut out: Vec<ImageVersion> = Vec::new();
    let mut j: usize = 0;
    while j < count
        invariant
            j <= count <= order@.len(),
            all == version_views(list@),
            ints == order@.map_values(|i: usize| i as int),
            sorted == arranged(all, ints),
            forall|k: int| 0 <= k < order@.len() ==> #[trigger] order@[k] < list@.len(),
            version_views(out@) == sorted.take(j as int),
        decreases count - j,
    {
        let ghost before = out@;
        let at: usize = order[j];
        out.push(copy_version(&list[at]));
        proof {
            assert(ints[j as int] == at);
            assert(version_views(out@) =~= version_views(before).push(sorted[j as int]));
            assert(sorted.take(j + 1) =~= sorted.take(j as int).push(sorted[j as int]));
        }
        j = j + 1;
    }
    assert(sorted.take(count as int) =~= at_most(sorted, limit as int));
    out
}

/// The builds with the earliest day first.
pub fn sort_oldest_first(list: &Vec<ImageVersion>) -> (res: Vec<ImageVersion>)
    ensures
        version_views(res@) == oldest_versions_first(version_views(list@)),
{
    let ghost all = version_views(list@);
    let mut keys: Vec<i64> = Vec::new();
    let mut i: usize = 0;
    while i < list.len()
        invariant
            i <= list@.len(),
            all == version_views(list@),
            keys@ == day_keys(all).take(i as int),
        decreases list@.len() - i,
    {
        keys.push(list[i].date.key());
        proof {
            assert(day_keys(all)[i as int] == keys@.last());
            assert(keys@ =~= day_keys(all).take(i + 1));
        }
        i = i + 1;
    }
    assert(keys@ =~= day_keys(all));
    let order = positions_by_key(&keys);
    pick_versions(list, &order, list.len())
}

/// At most `max` builds, the latest day first.
pub fn newest_versions(list: &Vec<ImageVersion>, max: usize) -> (res: Vec<ImageVersion>)
    ensures
        version_views(res@) == at_most(newest_versions_first(version_views(list@)), max as int),
{
    let ghost all = version_views(list@);
    let mut keys: Vec<i64> = Vec::new();
    let mut i: usize = 0;
    while i < list.len()
        invariant
            i <= list@.len(),
            all == version_views(list@),
            keys@ == reverse_day_keys(all).take(i as int),
        decreases list@.len() - i,
    {
        keys.push(-list[i].date.key());
        proof {
            assert(reverse_day_keys(all)[i as int] == keys@.last());
            assert(keys@ =~= reverse_day_keys(all).take(i + 1));
        }
        i = i + 1;
    }
    assert(keys@ =~= reverse_day_keys(all));
    let order = positions_by_key(&keys);
    pick_versions(list, &order, max)
}

/// The builds that could be read, the earliest day first.
pub fn collect_versions(fetched: Vec<Option<ImageVersion>>) -> (res: Vec<ImageVersion>)
    ensures
        version_views(res@) == oldest_versions_first(found_views(fetched@)),
{
    let ghost list = fetched@;
    let mut found: Vec<ImageVersion> = Vec::new();
    assert(list.take(0) =~= Seq::empty());
    assert(version_views(found@) =~= found_views(list.take(0)));
    for item in it: fetched.into_iter()
        invariant
            it.seq() == list,
            version_views(found@) == found_views(list.take(it.index() as int)),
    {
        let ghost before = found@;
        proof {
            let i = it.index() as int;
            assert(list.take(i + 1).drop_last() =~= list.take(i));
            assert(list.take(i + 1).last() == item);
        }
        if let Some(v) = item {
            found.push(v);
            assert(version_views(found@) =~= version_views(before).push(v@));
        }
    }
    assert(list.take(list.len() as int) =~= list);
    sort_oldest_first(&found)
}

/// Builds in order of their days are the same builds: oldest first in ascending,
/// newest first in descending order of their days, and whatever is left out at the
/// end of the newest is not later than what is kept.
pub proof fn law_versions_sorted(list: Seq<ImageVersionView>, max: nat)
    ensures
        ({
            let up = oldest_versions_first(list);
            let down = newest_versions_first(list);
            let kept = at_most(down, max as int);
            &&& up.to_multiset() == list.to_multiset()
            &&& down.to_multiset() == list.to_multiset()
            &&& kept.len() == if max < list.len() {
                max
            } else {
                list.len()
            }
            &&& forall|i: int, j: int|
                0 <= i < j < up.len() ==> (#[trigger] up[i]).date.spec_key() <= (
                #[trigger] up[j]).date.spec_key()
            &&& forall|i: int, j: int|
                0 <= i < j < down.len() ==> (#[trigger] down[i]).date.spec_key() >= (
                #[trigger] down[j]).date.spec_key()
            &&& forall|i: int, j: int|
                0 <= i < kept.len() <= j < down.len() ==> (#[trigger] kept[i]).date.spec_key()
                    >= (#[trigger] down[j]).date.spec_key()
        }),
{
    let a = day_keys(list);
    let b = reverse_day_keys(list);
    law_arranged_by_key(list, a);
    law_arranged_by_key(list, b);
    let p = sorted_positions(list.len(), by_key(a));
    let q = sorted_positions(list.len(), by_key(b));
    let up = oldest_versions_first(list);
    let down = newest_versions_first(list);
    assert forall|i: int, j: int| 0 <= i < j < up.len() implies (
    #[trigger] up[i]).date.spec_key() <= (#[trigger] up[j]).date.spec_key() by {
        assert(a[p[i]] <= a[p[j]]);
        assert(up[i] == list[p[i]] && up[j] == list[p[j]]);
        assert(a[p[i]] == list[p[i]].date.spec_key() && a[p[j]] == list[p[j]].date.spec_key());
    }
    assert forall|i: int, j: int| 0 <= i < j < down.len() implies (
    #[trigger] down[i]).date.spec_key() >= (#[trigger] down[j]).date.spec_key() by {
        assert(b[q[i]] <= b[q[j]]);
        assert(down[i] == list[q[i]] && down[j] == list[q[j]]);
        assert(b[q[i]] == -list[q[i]].date.spec_key() && b[q[j]] == -list[q[j]].date.spec_key());
    }
}

/// What reading the manifests of a plan comes to: the builds, the earliest first. An
/// error where there was nothing to read, or where the latest build could not be
/// read.
pub open spec fn fetched_versions(
    plan: VersionPlanView,
    stream: Seq<char>,
    fetched: Seq<Option<ImageVersion>>,
) -> Result<Seq<ImageVersionView>, RegistryErrorView> {
    match plan {
        VersionPlanView::Builds(_) => Ok(oldest_versions_first(found_views(fetched))),
        VersionPlanView::Latest(_) => if found_views(fetched).len() > 0 {
            Ok(oldest_versions_first(found_views(fetched)))
        } else {
            Err(RegistryErrorView::NoTags(stream))
        },
        VersionPlanView::Nothing => Err(RegistryErrorView::NoTags(stream)),
    }
}

/// The view of builds or of the error in their place.
pub open spec fn versions_result(r: Result<Vec<ImageVersion>, RegistryError>) -> Result<
    Seq<ImageVersionView>,
    RegistryErrorView,
> {
    match r {
        Ok(list) => Ok(version_views(list@)),
        Err(e) => Err(e@),
    }
}

impl RegistryClient {
    fn build_target(&self, date: CalendarDate, tag: &str) -> (res: BuildTarget)
        ensures
            res@ == self@.target(date, tag@),
    {
        BuildTarget {
            date,
            url: self.manifest_url(self.image.as_str(), tag),
            full_ref: self.full_ref(self.image.as_str(), tag),
        }
    }

    /// Which manifests to read for the builds from the day `first` on: all of them, or the
    /// newest up to a limit.
    pub fn plan_versions(
        &self,
        tags: &Vec<String>,
        today: CalendarDate,
        first: Option<CalendarDate>,
        limit: Option<usize>,
    ) -> (res: VersionPlan)
        ensures
            res@ == self@.plan(
                owned_views(tags@),
                today,
                first,
                match limit {
                    Some(n) => Some(n as int),
                    None => None,
                },
            ),
    {
        let builds = stream_builds(tags, self.stream.as_str(), first);
        assert(dated_views(builds@).len() == builds@.len());
        if builds.len() > 0 {
            let most: usize = match limit {
                Some(n) => n,
                None => builds.len(),
            };
            let newest = newest_builds(&builds, most);
            proof {
                let list = dated_views(builds@);
                law_arranged_by_key(list, newest_keys(list));
            }
            let ghost all = dated_views(newest@);
            let mut targets: Vec<BuildTarget> = Vec::new();
            let mut i: usize = 0;
            while i < newest.len()
                invariant
                    i <= newest@.len(),
                    all == dated_views(newest@),
                    target_views(targets@) == self@.targets(all).take(i as int),
                decreases newest@.len() - i,
            {
                let ghost before = targets@;
                targets.push(self.build_target(newest[i].date, newest[i].tag.as_str()));
                proof {
                    assert(all[i as int] == newest@[i as int]@);
                    assert(target_views(targets@) =~= target_views(before).push(
                        self@.targets(all)[i as int],
                    ));
                    assert(self@.targets(all).take(i + 1) =~= self@.targets(all).take(
                        i as int,
                    ).push(self@.targets(all)[i as int]));
                }
                i = i + 1;
            }
            assert(self@.targets(all).take(i as int) =~= self@.targets(all));
            VersionPlan::Builds(targets)
        } else if holds_string(tags, "latest") {
            VersionPlan::Latest(self.build_target(today, "latest"))
        } else {
            VersionPlan::Nothing
        }
    }

    /// Which manifests to read for the builds of the last `days` days, all of them.
    pub fn fetch_versions(&self, tags: &Vec<String>, today: CalendarDate, days: u32) -> (res:
        VersionPlan)
        requires
            today.wf(),
            days_before_year(MIN_YEAR as int) < today.day_number() - days,
        ensures
            res@ == self@.window(owned_views(tags@), today, days as int),
    {
        proof {
            lemma_day_number_bound(today);
        }
        let first: CalendarDate = earlier(today, days as i64);
        self.plan_versions(tags, today, Some(first), None)
    }

    /// What reading the manifests of a plan comes to.
    pub fn finish_versions(&self, plan: &VersionPlan, fetched: Vec<Option<ImageVersion>>) -> (res:
        Result<Vec<ImageVersion>, RegistryError>)
        ensures
            versions_result(res) == fetched_versions(plan@, self@.stream, fetched@),
    {
        let versions = collect_versions(fetched);
        proof {
            let found = found_views(fetched@);
            law_arranged_by_key(found, day_keys(found));
            assert(version_views(versions@).len() == versions@.len());
        }
        match plan {
            VersionPlan::Builds(_) => Ok(versions),
            VersionPlan::Latest(_) => if versions.len() > 0 {
                Ok(versions)
            } else {
                Err(RegistryError::NoTags(self.stream.as_str().to_owned()))
            },
            VersionPlan::Nothing => Err(RegistryError::NoTags(self.stream.as_str().to_owned())),
        }
    }
}

/// The annotation of a manifest, or a default.
pub open spec fn annotation_or(
    annotations: Map<Seq<char>, Seq<char>>,
    key: Seq<char>,
    default: Seq<char>,
) -> Seq<char> {
    if annotations.dom().contains(key) {
        annotations[key]
    } else {
        default
    }
}

/// When an image was built: what its manifest says, where that is a time, else
/// midnight of its day.
pub open spec fn build_instant(
    annotations: Map<Seq<char>, Seq<char>>,
    date: CalendarDate,
) -> Timestamp {
    let key = "org.opencontainers.image.created"@;
    let midnight = Timestamp { date, hour: 0, minute: 0, second: 0, nanosecond: 0 };
    if annotations.dom().contains(key) {
        match rfc3339_value(annotations[key]) {
            Some(t) => t,
            None => midnight,
        }
    } else {
        midnight
    }
}

/// The build that a manifest's annotations describe.
pub open spec fn annotated_version(
    annotations: Map<Seq<char>, Seq<char>>,
    date: CalendarDate,
    full_ref: Seq<char>,
) -> ImageVersionView {
    ImageVersionView {
        date,
        full_ref,
        version: annotation_or(
            annotations,
            "org.opencontainers.image.version"@,
            compact_date(date),
        ),
        kernel: annotation_or(annotations, "ostree.linux"@, Seq::empty()),
        revision: first_of(
            annotation_or(annotations, "org.opencontainers.image.revision"@, Seq::empty()),
            8,
        ),
        created: build_instant(annotations, date),
    }
}

/// The time of a build: the parsed annotation, or midnight of its day.
pub fn instant_or_midnight(parsed: Option<Timestamp>, date: CalendarDate) -> (res: Timestamp)
    requires
        date.wf(),
        parsed matches Some(t) ==> t.wf(),
    ensures
        res == match parsed {
            Some(t) => t,
            None => Timestamp { date, hour: 0, minute: 0, second: 0, nanosecond: 0 },
        },
        res.wf(),
{
    match parsed {
        Some(t) => t,
        None => date.at(0, 0),
    }
}

/// The build that a manifest describes; nothing where it has no annotations.
pub fn version_from_manifest(
    date: CalendarDate,
    full_ref: String,
    annotations: &Option<TextMap>,
) -> (res: Option<ImageVersion>)
    requires
        date.wf(),
        annotations matches Some(a) ==> a.wf(),
    ensures
        res is Some <==> annotations is Some,
        res matches Some(v) ==> v@ == annotated_version(annotations.unwrap()@, date, full_ref@)
            && v.date.wf() && v.created.wf(),
{
    match annotations {
        None => None,
        Some(a) => {
            let version: String = match a.get("org.opencontainers.image.version") {
                Some(v) => v.to_owned(),
                None => date.compact(),
            };
            let kernel: String = match a.get("ostree.linux") {
                Some(k) => k.to_owned(),
                None => String::new(),
            };
            let revision: String = match a.get("org.opencontainers.image.revision") {
                Some(r) => first_chars(r, 8).to_owned(),
                None => String::new(),
            };
            let parsed: Option<Timestamp> = match a.get("org.opencontainers.image.created") {
                Some(text) => parse_rfc3339(text),
                None => None,
            };
            let created = instant_or_midnight(parsed, date);
            let v = ImageVersion { date, full_ref, version, kernel, revision, created };
            proof {
                let w = annotated_version(a@, date, full_ref@);
                assert(v@.version =~= w.version);
                assert(v@.kernel =~= w.kernel);
                assert(v@.revision =~= w.revision);
                assert(v@ =~= w);
            }
            Some(v)
        },
    }
}

/// The tag is a digest or too long to be offered.
pub open spec fn unusable_tag(tag: Seq<char>) -> bool {
    begins_with(tag, "sha256:"@) || encode_utf8(tag).len() > TAG_BYTES_MAX
}

/// The tag is that of a stream: it has no day at its end and is no bare day.
pub open spec fn is_stream_tag(stream: Seq<char>) -> spec_fn(Seq<char>) -> bool {
    |tag: Seq<char>|
        !unusable_tag(tag) && build_day(tag, stream) is None && stream_of(tag) is None
            && compact_value(tag) is None
}

/// The tag may be offered at all.
pub open spec fn is_usable() -> spec_fn(Seq<char>) -> bool {
    |tag: Seq<char>| !unusable_tag(tag)
}

/// The texts in ascending order.
pub open spec fn ascending(texts: Seq<Seq<char>>) -> Seq<Seq<char>> {
    arranged(texts, sorted_positions(texts.len(), by_text(texts)))
}

/// The tags of dated builds.
pub open spec fn tags_of(list: Seq<DatedTagView>) -> Seq<Seq<char>> {
    list.map_values(|t: DatedTagView| t.tag)
}

/// The tags that are offered: streams in alphabetical order, then the newest dated
/// builds of the client's stream.
pub open spec fn offered_tags(tags: Seq<Seq<char>>, stream: Seq<char>) -> Seq<Seq<char>> {
    ascending(tags.filter(is_stream_tag(stream))) + tags_of(
        at_most(
            newest_first(builds_of_stream(tags.filter(is_usable()), stream, None)),
            DATED_TAGS_MAX as int,
        ),
    )
}

fn tag_unusable(tag: &str) -> (res: bool)
    ensures
        res == unusable_tag(tag@),
{
    starts_with(tag, "sha256:") || byte_len(tag) > TAG_BYTES_MAX
}

/// Copies of the usable tags.
fn usable_tags(tags: &Vec<String>) -> (res: Vec<String>)
    ensures
        owned_views(res@) == owned_views(tags@).filter(is_usable()),
{
    let ghost all = owned_views(tags@);
    let mut out: Vec<String> = Vec::new();
    let mut i: usize = 0;
    proof {
        reveal(Seq::filter);
        assert(owned_views(out@) =~= all.take(0).filter(is_usable()));
    }
    while i < tags.len()
        invariant
            i <= tags@.len(),
            all == owned_views(tags@),
            owned_views(out@) == all.take(i as int).filter(is_usable()),
        decreases tags@.len() - i,
    {
        let ghost before = out@;
        let tag = tags[i].as_str();
        proof {
            reveal(Seq::filter);
            assert(all.take(i + 1).drop_last() =~= all.take(i as int));
            assert(all.take(i + 1).last() == tag@);
        }
        if !tag_unusable(tag) {
            out.push(tag.to_owned());
            assert(owned_views(out@) =~= owned_views(before).push(tag@));
        }
        i = i + 1;
    }
    assert(all.take(i as int) =~= all);
    out
}

/// The tags of streams.
fn stream_tags<'a>(tags: &'a Vec<String>, stream: &str) -> (res: Vec<&'a str>)
    ensures
        views(res@) == owned_views(tags@).filter(is_stream_tag(stream@)),
{
    let ghost all = owned_views(tags@);
    let ghost test = is_stream_tag(stream@);
    let mut out: Vec<&'a str> = Vec::new();
    let mut i: usize = 0;
    proof {
        reveal(Seq::filter);
        assert(views(out@) =~= all.take(0).filter(test));
    }
    while i < tags.len()
        invariant
            i <= tags@.len(),
            all == owned_views(tags@),
            test == is_stream_tag(stream@),
            views(out@) == all.take(i as int).filter(test),
        decreases tags@.len() - i,
    {
        let ghost before = out@;
        let tag = tags[i].as_str();
        proof {
            reveal(Seq::filter);
            assert(all.take(i + 1).drop_last() =~= all.take(i as int));
            assert(all.take(i + 1).last() == tag@);
        }
        if !tag_unusable(tag) && parse_dated_tag(tag, stream).is_none() && strip_date_suffix(
            tag,
        ).is_none() && !is_bare_day(tag) {
            out.push(tag);
            assert(views(out@) =~= views(before).push(tag@));
        }
        i = i + 1;
    }
    assert(all.take(i as int) =~= all);
    out
}

/// Every offered tag is one of the listed ones and usable. It names a stream and has no
/// day, or it names a build of the client's stream.
pub proof fn law_offered_tags(tags: Seq<Seq<char>>, stream: Seq<char>, tag: Seq<char>)
    requires
        offered_tags(tags, stream).contains(tag),
    ensures
        tags.contains(tag),
        !unusable_tag(tag),
        (stream_of(tag) is None && compact_value(tag) is None) || build_day(tag, stream) is Some,
{
    broadcast use vstd::seq_lib::group_to_multiset_ensures;

    let streams = tags.filter(is_stream_tag(stream));
    let sorted = ascending(streams);
    let builds = builds_of_stream(tags.filter(is_usable()), stream, None);
    let newest = newest_first(builds);
    let kept = at_most(newest, DATED_TAGS_MAX as int);
    law_arranged_by_text(streams);
    law_newest_builds(builds, DATED_TAGS_MAX as nat);
    let k = choose|k: int|
        0 <= k < offered_tags(tags, stream).len() && offered_tags(tags, stream)[k] == tag;
    if k < sorted.len() {
        assert(sorted[k] == tag);
        assert(sorted.to_multiset().count(tag) > 0);
        assert(streams.to_multiset().count(tag) > 0);
        assert(streams.contains(tag));
        let m = choose|m: int| 0 <= m < streams.len() && streams[m] == tag;
        tags.lemma_filter_pred(is_stream_tag(stream), m);
        tags.lemma_filter_contains_rev(is_stream_tag(stream), tag);
    } else {
        let m = k - sorted.len();
        assert(tags_of(kept)[m] == tag);
        let build = newest[m];
        assert(kept[m] == build);
        assert(build.tag == tag);
        assert(newest.to_multiset().count(build) > 0);
        assert(builds.to_multiset().count(build) > 0);
        assert(builds.contains(build));
        let usable = tags.filter(is_usable());
        law_builds_of_stream(usable, stream, None, build);
        let n = choose|n: int| 0 <= n < usable.len() && usable[n] == tag;
        tags.lemma_filter_pred(is_usable(), n);
        tags.lemma_filter_contains_rev(is_usable(), tag);
    }
}

/// Every usable tag that names a stream is offered.
pub proof fn law_streams_offered(tags: Seq<Seq<char>>, stream: Seq<char>, i: int)
    requires
        0 <= i < tags.len(),
        !unusable_tag(tags[i]),
        build_day(tags[i], stream) is None,
        stream_of(tags[i]) is None,
        compact_value(tags[i]) is None,
    ensures
        offered_tags(tags, stream).contains(tags[i]),
{
    broadcast use vstd::seq_lib::group_to_multiset_ensures;

    let streams = tags.filter(is_stream_tag(stream));
    let sorted = ascending(streams);
    law_arranged_by_text(streams);
    tags.lemma_filter_contains(is_stream_tag(stream), i);
    assert(streams.to_multiset().count(tags[i]) > 0);
    assert(sorted.to_multiset().count(tags[i]) > 0);
    let k = choose|k: int| 0 <= k < sorted.len() && sorted[k] == tags[i];
    assert(offered_tags(tags, stream)[k] == tags[i]);
}

/// What a character beyond ASCII is in upper case; it may be more than one character.
pub uninterp spec fn wide_upper_case(c: char) -> Seq<char>;

/// What a character is in upper case. An ASCII letter becomes its capital, and other
/// ASCII characters stay as they are.
pub open spec fn upper_case(c: char) -> Seq<char> {
    if 'a' <= c <= 'z' {
        seq![((c as u32) - 32) as char]
    } else if (c as u32) < 0x80 {
        seq![c]
    } else {
        wide_upper_case(c)
    }
}

/// Calls `char::to_uppercase`. What it gives for ASCII is stated; beyond ASCII the
/// result depends on the character alone and is only named.
#[verifier::external_body]
fn to_upper_case(c: char) -> (res: String)
    ensures
        (c as u32) < 0x80 ==> res@ == upper_case(c),
        (c as u32) >= 0x80 ==> res@ == wide_upper_case(c),
{
    c.to_uppercase().collect()
}

/// The word with a capital at its beginning.
pub open spec fn capitalized(word: Seq<char>) -> Seq<char> {
    if word.len() == 0 {
        word
    } else {
        upper_case(word[0]) + word.skip(1)
    }
}

/// Every part between dashes with a capital at its beginning.
pub open spec fn title_case(image: Seq<char>) -> Seq<char> {
    join(split(image, '-').map_values(|word: Seq<char>| capitalized(word)), "-"@)
}

/// The word whose first character is replaced by `lead`; nothing where it has none.
pub fn with_lead(lead: &str, word: &str) -> (res: String)
    ensures
        res@ == if word@.len() == 0 {
            word@
        } else {
            lead@ + word@.skip(1)
        },
{
    let n: usize = to_chars(word).len();
    if n == 0 {
        word.to_owned()
    } else {
        let mut text: String = lead.to_owned();
        assert(word@.subrange(1, n as int) =~= word@.skip(1));
        text.append(word.substring_char(1, n));
        text
    }
}

fn capitalize(word: &str) -> (res: String)
    ensures
        res@ == capitalized(word@),
{
    if to_chars(word).len() == 0 {
        word.to_owned()
    } else {
        let lead = to_upper_case(word.get_char(0));
        with_lead(lead.as_str(), word)
    }
}

/// The name of an image for people.
pub fn display_name(image: &str) -> (res: String)
    ensures
        res@ == title_case(image@),
{
    let words = split_char(image, '-');
    let ghost all = split(image@, '-').map_values(|word: Seq<char>| capitalized(word));
    proof {
        lemma_split_nonempty(image@, '-');
        assert(views(words@).len() == words@.len());
        assert(views(words@)[0] == words@[0]@);
    }
    let mut text: String = capitalize(words[0]);
    let mut i: usize = 1;
    assert(all.take(1) =~= seq![all[0]]);
    while i < words.len()
        invariant
            1 <= i <= words@.len(),
            views(words@) == split(image@, '-'),
            all == split(image@, '-').map_values(|word: Seq<char>| capitalized(word)),
            text@ == join(all.take(i as int), "-"@),
        decreases words@.len() - i,
    {
        proof {
            assert(views(words@)[i as int] == words@[i as int]@);
            assert(all.take(i + 1).drop_last() =~= all.take(i as int));
            assert(all.take(i + 1).last() == capitalized(words@[i as int]@));
        }
        text.append("-");
        text.append(capitalize(words[i]).as_str());
        i = i + 1;
    }
    assert(all.take(i as int) =~= all);
    text
}

impl ClientView {
    /// The images that the registry is asked for: those of the client's family.
    pub open spec fn candidates(self) -> Option<Seq<Seq<char>>> {
        match best_of(catalogue().filter(holds_image(self.org, self.image)), self.stream) {
            Some(family) => Some(family.images),
            None => None,
        }
    }

    /// The variant of an image name.
    pub open spec fn variant(self, image: Seq<char>) -> VariantRefView {
        VariantRefView {
            image,
            display_name: title_case(image),
            full_ref: self.reference(image, self.stream),
        }
    }

    /// The test that an image is not the client's own.
    pub open spec fn is_other(self) -> spec_fn(Seq<char>) -> bool {
        |image: Seq<char>| image != self.image
    }

    /// The variants: the client's own image first, then the others that the registry
    /// has.
    pub open spec fn variants(self, hits: Seq<Seq<char>>) -> Seq<VariantRefView> {
        seq![self.variant(self.image)] + hits.filter(self.is_other()).map_values(
            |image: Seq<char>| self.variant(image),
        )
    }
}

impl RegistryClient {
    /// The tags that are offered for selection: streams in alphabetical order, then the
    /// newest dated builds of this stream.
    pub fn fetch_available_tags(&self, tags: &Vec<String>) -> (res: Vec<String>)
        ensures
            owned_views(res@) == offered_tags(owned_views(tags@), self@.stream),
    {
        let streams = stream_tags(tags, self.stream.as_str());
        let order = positions_by_text(&streams);
        let ghost names = views(streams@);
        let ghost sorted = ascending(names);
        let ghost ints = order@.map_values(|i: usize| i as int);
        let mut out: Vec<String> = Vec::new();
        let mut i: usize = 0;
        while i < order.len()
            invariant
                i <= order@.len(),
                names == views(streams@),
                ints == order@.map_values(|i: usize| i as int),
                sorted == arranged(names, ints),
                forall|k: int| 0 <= k < order@.len() ==> #[trigger] order@[k] < streams@.len(),
                owned_views(out@) == sorted.take(i as int),
            decreases order@.len() - i,
        {
            let ghost before = out@;
            out.push(streams[order[i]].to_owned());
            proof {
                assert(ints[i as int] == order@[i as int]);
                assert(owned_views(out@) =~= owned_views(before).push(sorted[i as int]));
                assert(sorted.take(i + 1) =~= sorted.take(i as int).push(sorted[i as int]));
            }
            i = i + 1;
        }
        assert(sorted.take(i as int) =~= sorted);
        let usable = usable_tags(tags);
        let builds = stream_builds(&usable, self.stream.as_str(), None);
        let newest = newest_builds(&builds, DATED_TAGS_MAX);
        let ghost kept = tags_of(dated_views(newest@));
        let mut j: usize = 0;
        assert(sorted + kept.take(0) =~= sorted);
        while j < newest.len()
            invariant
                j <= newest@.len(),
                kept == tags_of(dated_views(newest@)),
                owned_views(out@) == sorted + kept.take(j as int),
            decreases newest@.len() - j,
        {
            let ghost before = out@;
            out.push(newest[j].tag.as_str().to_owned());
            proof {
                assert(kept[j as int] == newest@[j as int].tag@);
                assert(owned_views(out@) =~= owned_views(before).push(kept[j as int]));
                assert(sorted + kept.take(j + 1) =~= (sorted + kept.take(j as int)).push(
                    kept[j as int],
                ));
            }
            j = j + 1;
        }
        assert(kept.take(j as int) =~= kept);
        out
    }

    fn make_ref(&self, image: &str) -> (res: VariantRef)
        ensures
            res@ == self@.variant(image@),
    {
        VariantRef {
            image: image.to_owned(),
            display_name: display_name(image),
            full_ref: self.full_ref(image, self.stream.as_str()),
        }
    }

    /// The images to ask the registry for; nothing where the image belongs to no known
    /// family.
    pub fn variant_candidates(&self) -> (res: Option<Vec<&'static str>>)
        ensures
            match res {
                Some(images) => self@.candidates() == Some(views(images@)),
                None => self@.candidates() is None,
            },
    {
        match Family::best_match(self.org.as_str(), self.image.as_str(), self.stream.as_str()) {
            Some(f) => Some(f.images),
            None => None,
        }
    }

    /// The variants of the image: itself first, then those of `hits`, the images that
    /// the registry has at this stream.
    pub fn discover_variants(&self, hits: &Vec<String>) -> (res: Vec<VariantRef>)
        ensures
            variant_views(res@) == self@.variants(owned_views(hits@)),
    {
        let ghost all = owned_views(hits@);
        let ghost test = self@.is_other();
        let ghost make = |image: Seq<char>| self@.variant(image);
        let mut out: Vec<VariantRef> = Vec::new();
        out.push(self.make_ref(self.image.as_str()));
        let ghost own = seq![self@.variant(self@.image)];
        let mut i: usize = 0;
        proof {
            reveal(Seq::filter);
            assert(variant_views(out@) =~= own + all.take(0).filter(test).map_values(make));
        }
        while i < hits.len()
            invariant
                i <= hits@.len(),
                all == owned_views(hits@),
                test == self@.is_other(),
                make == (|image: Seq<char>| self@.variant(image)),
                variant_views(out@) == own + all.take(i as int).filter(test).map_values(make),
            decreases hits@.len() - i,
        {
            let ghost before = out@;
            let ghost found = all.take(i as int).filter(test);
            let image = hits[i].as_str();
            proof {
                reveal(Seq::filter);
                assert(all.take(i + 1).drop_last() =~= all.take(i as int));
                assert(all.take(i + 1).last() == image@);
            }
            if !str_eq(image, self.image.as_str()) {
                out.push(self.make_ref(image));
                proof {
                    assert(variant_views(out@) =~= variant_views(before).push(
                        self@.variant(image@),
                    ));
                    assert(found.push(image@).map_values(make) =~= found.map_values(make).push(
                        self@.variant(image@),
                    ));
                    assert(own + found.map_values(make).push(self@.variant(image@)) =~= (own
                        + found.map_values(make)).push(self@.variant(image@)));
                }
            }
            i = i + 1;
        }
        assert(all.take(i as int) =~= all);
        out
    }
}

/// The client's own image is the first variant and occurs once, whatever the registry
/// answers.
pub proof fn law_own_variant_first(client: ClientView, hits: Seq<Seq<char>>)
    ensures
        client.variants(hits).len() >= 1,
        client.variants(hits)[0] == client.variant(client.image),
        forall|i: int|
            1 <= i < client.variants(hits).len() ==> (#[trigger] client.variants(hits)[i]).image
                != client.image && hits.contains(client.variants(hits)[i].image),
{
    let others = hits.filter(client.is_other());
    assert forall|i: int| 1 <= i < client.variants(hits).len() implies (
    #[trigger] client.variants(hits)[i]).image != client.image && hits.contains(
        client.variants(hits)[i].image,
    ) by {
        hits.lemma_filter_pred(client.is_other(), i - 1);
        assert(client.variants(hits)[i] == client.variant(others[i - 1]));
        assert(others.contains(others[i - 1]));
        hits.lemma_filter_contains_rev(client.is_other(), others[i - 1]);
    }
}

/// Detection asks for as little as possible: a pretended image settles it at once,
/// `bootc` is asked only where none is pretended, the release file is read only where
/// `bootc` did not tell, and then it is over.
pub proof fn law_detection_order(
    mock: Option<MockIdentity>,
    output: Option<Vec<u8>>,
    content: Option<String>,
)
    ensures
        mock matches Some(m) ==> detection_step(mock, DetectEvent::Start)
            == DetectStepView::Found(mock_client(m)),
        mock is None ==> detection_step(mock, DetectEvent::Start) is AskBootc,
        detection_step(mock, DetectEvent::BootcStatus(output)) is Found || detection_step(
            mock,
            DetectEvent::BootcStatus(output),
        ) is ReadOsRelease,
        detection_step(mock, DetectEvent::OsRelease(content)) is Found || detection_step(
            mock,
            DetectEvent::OsRelease(content),
        ) is Unknown,
{
}

/// The reference of a build of a client's stream leads back to the client.
pub proof fn law_build_reference_leads_back(client: ClientView, d: CalendarDate)
    requires
        !client.registry.contains('/'),
        !client.org.contains('/'),
        !client.stream.contains(':'),
        d.wf(),
        0 <= d.year <= 9999,
    ensures
        client_of_reference(
            client.reference(client.image, client.stream.push('.') + compact_date(d)),
        ) == Some(client),
        client_of_reference(
            client.reference(client.image, client.stream.push('-') + compact_date(d)),
        ) == Some(client),
{
    law_compact_round_trip(d);
    law_forms_agree(client.stream, compact_date(d), seq!['1']);
    lemma_build_reference(client, '.', compact_date(d));
    lemma_build_reference(client, '-', compact_date(d));
}

proof fn lemma_build_reference(client: ClientView, sep: char, day: Seq<char>)
    requires
        !client.registry.contains('/'),
        !client.org.contains('/'),
        !client.stream.contains(':'),
        sep == '.' || sep == '-',
        all_digits(day),
        stream_of(client.stream.push(sep) + day) == Some(client.stream),
    ensures
        client_of_reference(client.reference(client.image, client.stream.push(sep) + day)) == Some(
            client,
        ),
{
    let tag = client.stream.push(sep) + day;
    let r = ImageRefView {
        registry: client.registry,
        org: client.org,
        image: client.image,
        tag,
    };
    if tag.contains(':') {
        let k = choose|k: int| 0 <= k < tag.len() && tag[k] == ':';
        let n = client.stream.len();
        if k < n {
            assert(client.stream[k] == ':');
        } else if k > n {
            assert(is_digit(day[k - n - 1]));
        }
    }
    law_reference_round_trip(r);
    assert(client.reference(client.image, tag) == r.text());
}

/// Every build of the stream whose day counts is planned, where the plan has no limit.
pub proof fn law_window_planned(
    client: ClientView,
    tags: Seq<Seq<char>>,
    today: CalendarDate,
    first: Option<CalendarDate>,
    tag: Seq<char>,
    day: CalendarDate,
)
    requires
        tags.contains(tag),
        build_day(tag, client.stream) == Some(day),
        recent_enough(day, first),
    ensures
        client.plan(tags, today, first, None) matches VersionPlanView::Builds(targets)
            && targets.contains(client.target(day, tag)),
{
    broadcast use vstd::seq_lib::group_to_multiset_ensures;

    let builds = builds_of_stream(tags, client.stream, first);
    let build = DatedTagView { date: day, tag };
    law_builds_of_stream(tags, client.stream, first, build);
    let newest = newest_first(builds);
    law_newest_builds(builds, builds.len());
    assert(builds.to_multiset().count(build) > 0);
    assert(newest.to_multiset().count(build) > 0);
    let k = choose|k: int| 0 <= k < newest.len() && newest[k] == build;
    assert(client.targets(newest)[k] == client.target(day, tag));
}

proof fn lemma_found(fetched: Seq<Option<ImageVersion>>, i: int)
    requires
        0 <= i < fetched.len(),
        fetched[i] is Some,
    ensures
        found_views(fetched).contains(fetched[i].unwrap()@),
    decreases fetched.len(),
{
    let front = fetched.drop_last();
    let all = found_views(fetched);
    if i == fetched.len() - 1 {
        assert(all.last() == fetched[i].unwrap()@);
        assert(all[all.len() - 1] == fetched[i].unwrap()@);
    } else {
        lemma_found(front, i);
        assert(front[i] == fetched[i]);
        let found = found_views(front);
        let k = choose|k: int| 0 <= k < found.len() && found[k] == fetched[i].unwrap()@;
        assert(all[k] == found[k]);
    }
}

/// Where every manifest of the plan is read, every build of the stream whose day counts
/// is among the versions that come back, with its day and its reference.
pub proof fn law_window_returned(
    client: ClientView,
    tags: Seq<Seq<char>>,
    today: CalendarDate,
    first: Option<CalendarDate>,
    fetched: Seq<Option<ImageVersion>>,
    tag: Seq<char>,
    day: CalendarDate,
)
    requires
        tags.contains(tag),
        build_day(tag, client.stream) == Some(day),
        recent_enough(day, first),
        client.plan(tags, today, first, None) matches VersionPlanView::Builds(targets)
            && fetched.len() == targets.len() && forall|i: int|
            0 <= i < targets.len() ==> (#[trigger] fetched[i] matches Some(v) && v@.date
                == targets[i].date && v@.full_ref == targets[i].full_ref),
    ensures
        fetched_versions(
            client.plan(tags, today, first, None),
            client.stream,
            fetched,
        ) matches Ok(versions) && exists|i: int|
            0 <= i < versions.len() && (#[trigger] versions[i]).date == day && versions[i].full_ref
                == client.reference(client.image, tag),
{
    broadcast use vstd::seq_lib::group_to_multiset_ensures;

    law_window_planned(client, tags, today, first, tag, day);
    let plan = client.plan(tags, today, first, None);
    let targets = plan->Builds_0;
    let k = choose|k: int| 0 <= k < targets.len() && targets[k] == client.target(day, tag);
    assert(fetched[k] is Some);
    let v = fetched[k].unwrap()@;
    lemma_found(fetched, k);
    let found = found_views(fetched);
    law_versions_sorted(found, found.len());
    let sorted = oldest_versions_first(found);
    assert(found.to_multiset().count(v) > 0);
    assert(sorted.to_multiset().count(v) > 0);
    let m = choose|m: int| 0 <= m < sorted.len() && sorted[m] == v;
    assert(v.date == targets[k].date && v.full_ref == targets[k].full_ref);
    assert(sorted[m].date == day && sorted[m].full_ref == client.reference(client.image, tag));
    let versions = fetched_versions(plan, client.stream, fetched)->Ok_0;
    assert(versions == sorted);
    assert(versions[m].date == day);
}

/// The line of a release file that gives a key a value, in quotes.
pub open spec fn quoted_line(key: Seq<char>, value: Seq<char>) -> Seq<char> {
    key + (seq!['"'] + value + seq!['"'])
}

/// A key and a value in quotes read back as that key and value.
pub proof fn lemma_quoted_line(key: Seq<char>, value: Seq<char>)
    requires
        !key.contains('\n'),
        !value.contains('\n'),
        !value.contains('"'),
    ensures
        begins_with(quoted_line(key, value), key),
        trim_char(quoted_line(key, value).skip(key.len() as int), '"') == value,
        !quoted_line(key, value).contains('\n'),
        quoted_line(key, value).last() == '"',
        quoted_line(key, value).len() > 0,
{
    let line = quoted_line(key, value);
    assert(line.take(key.len() as int) =~= key);
    assert(line.skip(key.len() as int) =~= seq!['"'] + value + seq!['"']);
    law_trim_quotes(value, '"');
    if line.contains('\n') {
        let k = choose|k: int| 0 <= k < line.len() && line[k] == '\n';
        let n = key.len() as int;
        if k < n {
            assert(key[k] == '\n');
        } else if n < k && k < line.len() - 1 {
            assert(value[k - n - 1] == '\n');
        }
    }
}

/// The value of a key comes from the last part of a file that gives it one.
pub proof fn law_last_value(a: Seq<Seq<char>>, b: Seq<Seq<char>>, key: Seq<char>)
    ensures
        last_value(a + b, key) == if last_value(b, key) is Some {
            last_value(b, key)
        } else {
            last_value(a, key)
        },
    decreases b.len(),
{
    if b.len() == 0 {
        assert(a + b =~= a);
    } else {
        law_last_value(a, b.drop_last(), key);
        assert((a + b).drop_last() =~= a + b.drop_last());
        assert((a + b).last() == b.last());
    }
}

/// A key has a value exactly where a line begins with it.
pub proof fn law_value_needs_line(lines: Seq<Seq<char>>, key: Seq<char>)
    ensures
        last_value(lines, key) is Some <==> exists|i: int|
            0 <= i < lines.len() && #[trigger] lines[i].len() >= key.len() && lines[i].take(
                key.len() as int,
            ) == key,
    decreases lines.len(),
{
    if lines.len() > 0 {
        let front = lines.drop_last();
        law_value_needs_line(front, key);
        let n = lines.len() - 1;
        if begins_with(lines.last(), key) {
            assert(lines[n].len() >= key.len() && lines[n].take(key.len() as int) == key);
        } else {
            if last_value(front, key) is Some {
                let i = choose|i: int|
                    0 <= i < front.len() && #[trigger] front[i].len() >= key.len()
                        && front[i].take(key.len() as int) == key;
                assert(lines[i].len() >= key.len() && lines[i].take(key.len() as int) == key);
            }
            if exists|i: int|
                0 <= i < lines.len() && #[trigger] lines[i].len() >= key.len() && lines[i].take(
                    key.len() as int,
                ) == key {
                let i = choose|i: int|
                    0 <= i < lines.len() && #[trigger] lines[i].len() >= key.len()
                        && lines[i].take(key.len() as int) == key;
                assert(front[i].len() >= key.len() && front[i].take(key.len() as int) == key);
            }
        }
    }
}

proof fn lemma_keys_differ(value: Seq<char>)
    ensures
        !begins_with(quoted_line("IMAGE_TAG="@, value), "IMAGE_REF="@),
        !begins_with(quoted_line("IMAGE_REF="@, value), "IMAGE_TAG="@),
        !begins_with(quoted_line("IMAGE_ID="@, value), "IMAGE_REF="@),
        !begins_with(quoted_line("VERSION_ID="@, value), "IMAGE_REF="@),
        !begins_with(quoted_line("VERSION_ID="@, value), "IMAGE_ID="@),
        !begins_with(quoted_line("IMAGE_ID="@, value), "VERSION_ID="@),
        !"IMAGE_REF="@.contains('\n'),
        !"IMAGE_TAG="@.contains('\n'),
        !"IMAGE_ID="@.contains('\n'),
        !"VERSION_ID="@.contains('\n'),
{
    reveal_strlit("IMAGE_REF=");
    reveal_strlit("IMAGE_TAG=");
    reveal_strlit("IMAGE_ID=");
    reveal_strlit("VERSION_ID=");
    let a = quoted_line("IMAGE_TAG="@, value);
    let b = quoted_line("IMAGE_REF="@, value);
    let c = quoted_line("IMAGE_ID="@, value);
    let d = quoted_line("VERSION_ID="@, value);
    assert(a[6] == 'T' && b[6] == 'R' && c[6] == 'I' && d[0] == 'V' && c[0] == 'I');
    if begins_with(a, "IMAGE_REF="@) {
        assert(a.take(10)[6] == 'R');
    }
    if begins_with(b, "IMAGE_TAG="@) {
        assert(b.take(10)[6] == 'T');
    }
    if begins_with(c, "IMAGE_REF="@) {
        assert(c.take(10)[6] == 'R');
    }
    if begins_with(d, "IMAGE_REF="@) {
        assert(d.take(10)[0] == 'I');
    }
    if begins_with(d, "IMAGE_ID="@) {
        assert(d.take(9)[0] == 'I');
    }
    if begins_with(c, "VERSION_ID="@) {
        assert(c.take(11)[0] == 'V');
    }
}

/// The parts of an address between its slashes.
pub proof fn lemma_reference_parts(registry: Seq<char>, org: Seq<char>, image: Seq<char>)
    requires
        !registry.contains('/'),
        !org.contains('/'),
    ensures
        ({
            let parts = split(registry.push('/') + (org.push('/') + image), '/');
            parts.len() >= 3 && parts[0] == registry && parts[1] == org && join(
                parts.skip(2),
                seq!['/'],
            ) == image
        }),
{
    law_split_concat(registry, org.push('/') + image, '/');
    law_split_concat(org, image, '/');
    law_split_join(seq![registry], '/');
    law_split_join(seq![org], '/');
    law_join_split(image, '/');
    lemma_split_nonempty(image, '/');
    let parts = split(registry.push('/') + (org.push('/') + image), '/');
    assert(parts =~= seq![registry] + (seq![org] + split(image, '/')));
    assert(parts.skip(2) =~= split(image, '/'));
}

/// What stands before the address, up to the transport, is dropped.
#[verifier::spinoff_prover]
#[verifier::rlimit(40)]
pub proof fn lemma_transport(lead: Seq<char>, reference: Seq<char>)
    requires
        !lead.contains('/'),
    ensures
        without_transport(lead + "docker://"@ + reference) == reference,
{
    let needle = "docker://"@;
    let value = lead + needle + reference;
    let n = lead.len() as int;
    assert(needle.len() == 9 && needle[7] == '/' && forall|k: int|
        0 <= k < 7 ==> #[trigger] needle[k] != '/') by {
        reveal_strlit("docker://");
    }
    assert(value.subrange(n, n + 9) =~= needle);
    law_find_text(value, needle, n);
    let p = find_text(value, needle);
    if p < n {
        assert(value[p + 7] == value.subrange(p, p + 9)[7]);
        if p + 7 < n {
            assert(lead[p + 7] == value[p + 7]);
        } else {
            assert(value[p + 7] == needle[p + 7 - n]);
        }
    }
    assert(value.skip(n + 9) =~= reference);
}

/// A release file with an image reference describes the image of that reference,
/// whatever stands before `docker://`. Its stream is the tag of the file where that has
/// no day at its end, the tag without the day where it has one, and `latest` only where
/// the file has no tag.
pub proof fn law_release_reference(
    lead: Seq<char>,
    transport: bool,
    registry: Seq<char>,
    org: Seq<char>,
    image: Seq<char>,
    tag: Option<Seq<char>>,
)
    requires
        !registry.contains('/'),
        !org.contains('/'),
        transport ==> !lead.contains('/'),
        ({
            let reference = registry.push('/') + (org.push('/') + image);
            let value = if transport {
                lead + "docker://"@ + reference
            } else {
                reference
            };
            &&& !value.contains('"') && !value.contains('\n')
            &&& !transport ==> !contains_text(reference, "docker://"@)
        }),
        tag matches Some(t) ==> !t.contains('"') && !t.contains('\n'),
    ensures
        ({
            let reference = registry.push('/') + (org.push('/') + image);
            let value = if transport {
                lead + "docker://"@ + reference
            } else {
                reference
            };
            let first = quoted_line("IMAGE_REF="@, value).push('\n');
            match tag {
                None => release_client(first) == Some(
                    ClientView { registry, org, image, stream: "latest"@ },
                ),
                Some(t) => {
                    &&& release_client(first + quoted_line("IMAGE_TAG="@, t).push('\n')) matches Some(
                        client,
                    )
                    &&& client.registry == registry && client.org == org && client.image == image
                    &&& stream_of(t) is None ==> client.stream == t
                    &&& stream_of(t) matches Some(name) ==> client.stream == name
                },
            }
        }),
{
    let reference = registry.push('/') + (org.push('/') + image);
    let value = if transport {
        lead + "docker://"@ + reference
    } else {
        reference
    };
    let a = quoted_line("IMAGE_REF="@, value);
    lemma_keys_differ(value);
    lemma_quoted_line("IMAGE_REF="@, value);
    if transport {
        lemma_transport(lead, reference);
    } else {
        lemma_find_text(reference, "docker://"@);
    }
    lemma_reference_parts(registry, org, image);
    reveal_strlit("/");
    assert("/"@ =~= seq!['/']);
    match tag {
        None => {
            let lines = seq![a];
            law_lines(lines);
            assert(join(lines, seq!['\n']) == a);
            assert(lines.drop_last() =~= Seq::empty());
            assert(last_value(lines.drop_last(), "IMAGE_TAG="@) is None);
            assert(last_value(lines, "IMAGE_REF="@) == Some(value));
            assert(last_value(lines, "IMAGE_TAG="@) is None);
            lemma_latest_has_no_day();
        },
        Some(t) => {
            lemma_keys_differ(t);
            lemma_quoted_line("IMAGE_TAG="@, t);
            let b = quoted_line("IMAGE_TAG="@, t);
            let lines = seq![a, b];
            assert forall|i: int| 0 <= i < lines.len() implies !(#[trigger] lines[i]).contains(
                '\n',
            ) && (lines[i].len() > 0 ==> lines[i].last() != '\r') by {
                assert(i == 0 || i == 1);
            }
            law_lines(lines);
            assert(lines.drop_last() =~= seq![a]);
            assert(seq![a].drop_last() =~= Seq::empty());
            assert(join(seq![a], seq!['\n']) == a);
            assert(join(lines, seq!['\n']) =~= a + seq!['\n'] + b);
            assert(join(lines, seq!['\n']).push('\n') =~= a.push('\n') + b.push('\n'));
            assert(last_value(seq![a], "IMAGE_REF="@) == Some(value));
            assert(last_value(lines, "IMAGE_REF="@) == Some(value));
            assert(last_value(lines, "IMAGE_TAG="@) == Some(t));
        },
    }
}

proof fn lemma_latest_has_no_day()
    ensures
        stream_of("latest"@) is None,
{
    reveal_strlit("latest");
    law_tags_without_day("latest"@, "latest"@);
}

/// A release file with the name and the version of an image, and no reference, describes
/// an image of that name at ghcr.io. It is owned by projectbluefin where the name holds
/// dakota, bluefin or aurora, and by ublue-os otherwise; its stream is `latest` for the
/// version `latest`, and the daily stable stream of the version otherwise.
pub proof fn law_release_name(image: Seq<char>, version: Seq<char>)
    requires
        !image.contains('"') && !image.contains('\n'),
        !version.contains('"') && !version.contains('\n'),
    ensures
        release_client(
            quoted_line("IMAGE_ID="@, image).push('\n') + quoted_line(
                "VERSION_ID="@,
                version,
            ).push('\n'),
        ) matches Some(client) && {
            &&& client.registry == "ghcr.io"@
            &&& client.image == image
            &&& contains_text(image, "dakota"@) ==> client.org == "projectbluefin"@
            &&& contains_text(image, "bluefin"@) ==> client.org == "projectbluefin"@
            &&& contains_text(image, "aurora"@) ==> client.org == "projectbluefin"@
            &&& !contains_text(image, "dakota"@) && !contains_text(image, "bluefin"@)
                && !contains_text(image, "aurora"@) ==> client.org == "ublue-os"@
            &&& version == "latest"@ ==> client.stream == "latest"@
            &&& version != "latest"@ ==> client.stream == "stable-daily-"@ + version
        },
{
    let a = quoted_line("IMAGE_ID="@, image);
    let b = quoted_line("VERSION_ID="@, version);
    lemma_keys_differ(image);
    lemma_keys_differ(version);
    lemma_quoted_line("IMAGE_ID="@, image);
    lemma_quoted_line("VERSION_ID="@, version);
    let lines = seq![a, b];
    assert forall|i: int| 0 <= i < lines.len() implies !(#[trigger] lines[i]).contains('\n') && (
    lines[i].len() > 0 ==> lines[i].last() != '\r') by {
        assert(i == 0 || i == 1);
    }
    law_lines(lines);
    assert(lines.drop_last() =~= seq![a]);
    assert(seq![a].drop_last() =~= Seq::empty());
    assert(join(seq![a], seq!['\n']) == a);
    assert(join(lines, seq!['\n']) =~= a + seq!['\n'] + b);
    assert(join(lines, seq!['\n']).push('\n') =~= a.push('\n') + b.push('\n'));
    assert(last_value(seq![a].drop_last(), "IMAGE_REF="@) is None);
    assert(last_value(seq![a], "IMAGE_REF="@) is None);
    assert(last_value(lines, "IMAGE_REF="@) is None);
    assert(last_value(seq![a], "IMAGE_ID="@) == Some(image));
    assert(last_value(lines, "IMAGE_ID="@) == Some(image));
    assert(last_value(lines, "VERSION_ID="@) == Some(version));
}

/// A release file describes no image where no line gives a reference, and none gives the
/// name or none the version.
pub proof fn law_release_unknown(content: Seq<char>)
    requires
        forall|i: int|
            0 <= i < lines_of(content).len() ==> !begins_with(
                #[trigger] lines_of(content)[i],
                "IMAGE_REF="@,
            ),
        (forall|i: int|
            0 <= i < lines_of(content).len() ==> !begins_with(
                #[trigger] lines_of(content)[i],
                "IMAGE_ID="@,
            )) || (forall|i: int|
            0 <= i < lines_of(content).len() ==> !begins_with(
                #[trigger] lines_of(content)[i],
                "VERSION_ID="@,
            )),
    ensures
        release_client(content) is None,
{
    law_value_needs_line(lines_of(content), "IMAGE_REF="@);
    law_value_needs_line(lines_of(content), "IMAGE_ID="@);
    law_value_needs_line(lines_of(content), "VERSION_ID="@);
}

/// A pretended image is taken as it is: its stream is its tag where that has no day at
/// its end, and the tag without the day where it has one.
pub proof fn law_pretended_image(mock: MockIdentity)
    ensures
        detection_step(Some(mock), DetectEvent::Start) matches DetectStepView::Found(client) && {
            &&& client.registry == mock.registry@
            &&& client.org == mock.org@
            &&& client.image == mock.image@
            &&& stream_of(mock.tag@) is None ==> client.stream == mock.tag@
            &&& stream_of(mock.tag@) matches Some(name) ==> client.stream == name
        },
{
}

/// The booted image is what stands at the first place of a status; the second place
/// counts only where there is nothing at the first. What is no string is no image.
pub proof fn law_booted_reference(first: NodeView, second: NodeView, text: Seq<char>)
    ensures
        booted_reference(NodeView::Text(text), second) == Some(text),
        booted_reference(NodeView::Absent, NodeView::Text(text)) == Some(text),
        booted_reference(first, second) matches Some(t) ==> first == NodeView::Text(t) || (first
            == NodeView::Absent && second == NodeView::Text(t)),
{
}

/// A status whose booted image is a dated build is that of the build's client.
pub proof fn law_status_leads_to_client(document: Seq<u8>, client: ClientView, d: CalendarDate)
    requires
        !client.registry.contains('/'),
        !client.org.contains('/'),
        !client.stream.contains(':'),
        d.wf(),
        0 <= d.year <= 9999,
        ({
            let reference = NodeView::Text(
                client.reference(client.image, client.stream.push('.') + compact_date(d)),
            );
            json_at(document, "/status/booted/image/image/image"@) == reference || (json_at(
                document,
                "/status/booted/image/image/image"@,
            ) is Absent && json_at(document, "/status/booted/image/image"@) == reference)
        }),
    ensures
        status_client(document) == Some(client),
        detection_step(None, DetectEvent::BootcStatus(None)) is ReadOsRelease,
{
    law_build_reference_leads_back(client, d);
}

/// An image reference without a day at the end of its tag, or without three parts before
/// it, is that of no client; otherwise the client is that of the parts of the reference.
pub proof fn law_client_of_reference(r: ImageRefView)
    requires
        r.canonical(),
    ensures
        client_of_reference(r.text()) == match stream_of(r.tag) {
            Some(name) => Some(
                ClientView { registry: r.registry, org: r.org, image: r.image, stream: name },
            ),
            None => None,
        },
{
    law_reference_round_trip(r);
}

proof fn lemma_targets_injective(client: ClientView, a: DatedTagView, b: DatedTagView)
    requires
        client.target(a.date, a.tag) == client.target(b.date, b.tag),
    ensures
        a == b,
{
    let p = client.registry + "/"@ + client.org + "/"@ + client.image + ":"@;
    let x = client.reference(client.image, a.tag);
    let y = client.reference(client.image, b.tag);
    assert(x =~= p + a.tag);
    assert(y =~= p + b.tag);
    assert(x.skip(p.len() as int) =~= a.tag);
    assert(y.skip(p.len() as int) =~= b.tag);
    assert(a =~= b);
}

/// What is fetched for the last so many days is exactly the builds of the stream of these
/// days: a tag of the list is planned where it is a build of the stream, of a day no
/// further back, and nothing else is planned.
pub proof fn law_window(
    client: ClientView,
    tags: Seq<Seq<char>>,
    today: CalendarDate,
    days: int,
    tag: Seq<char>,
    day: CalendarDate,
)
    requires
        today.wf(),
        day.wf(),
        days_earlier(today, days).wf(),
        days_earlier(today, days).day_number() == today.day_number() - days,
    ensures
        ({
            let plan = client.plan(tags, today, Some(days_earlier(today, days)), None);
            let planned = plan matches VersionPlanView::Builds(targets) && targets.contains(
                client.target(day, tag),
            );
            planned <==> tags.contains(tag) && build_day(tag, client.stream) == Some(day)
                && today.day_number() - day.day_number() <= days
        }),
{
    broadcast use vstd::seq_lib::group_to_multiset_ensures;

    let first = Some(days_earlier(today, days));
    law_key_orders_days(day, days_earlier(today, days));
    let build = DatedTagView { date: day, tag };
    let builds = builds_of_stream(tags, client.stream, first);
    law_builds_of_stream(tags, client.stream, first, build);
    if tags.contains(tag) && build_day(tag, client.stream) == Some(day) && today.day_number()
        - day.day_number() <= days {
        law_window_planned(client, tags, today, first, tag, day);
    }
    let plan = client.plan(tags, today, first, None);
    if plan is Builds && plan->Builds_0.contains(client.target(day, tag)) {
        let targets = plan->Builds_0;
        let newest = newest_first(builds);
        law_newest_builds(builds, builds.len());
        let k = choose|k: int| 0 <= k < targets.len() && targets[k] == client.target(day, tag);
        assert(targets[k] == client.target(newest[k].date, newest[k].tag));
        lemma_targets_injective(client, build, newest[k]);
        assert(newest.to_multiset().count(build) > 0);
        assert(builds.to_multiset().count(build) > 0);
        assert(builds.contains(build));
    }
}

/// Builds are planned with the latest day first. Where no build of the stream counts, the
/// tag `latest` is planned with today as its day, if it is listed, and nothing otherwise.
pub proof fn law_plan_order(
    client: ClientView,
    tags: Seq<Seq<char>>,
    today: CalendarDate,
    first: Option<CalendarDate>,
    limit: Option<int>,
)
    requires
        limit matches Some(n) ==> n >= 0,
    ensures
        ({
            let plan = client.plan(tags, today, first, limit);
            let builds = builds_of_stream(tags, client.stream, first);
            &&& plan matches VersionPlanView::Builds(targets) ==> builds.len() > 0 && (forall|
                i: int,
                j: int,
            |
                0 <= i < j < targets.len() ==> (#[trigger] targets[i]).date.spec_key() >= (
                #[trigger] targets[j]).date.spec_key())
            &&& plan matches VersionPlanView::Builds(targets) ==> targets.len() == match limit {
                Some(n) => if n < builds.len() {
                    n
                } else {
                    builds.len() as int
                },
                None => builds.len() as int,
            }
            &&& builds.len() == 0 && tags.contains("latest"@) ==> plan
                == VersionPlanView::Latest(
                BuildTargetView {
                    date: today,
                    url: "https://"@ + client.registry + "/v2/"@ + client.org + "/"@ + client.image
                        + "/manifests/"@ + "latest"@,
                    full_ref: client.registry + "/"@ + client.org + "/"@ + client.image + ":"@
                        + "latest"@,
                },
            )
            &&& builds.len() == 0 && !tags.contains("latest"@) ==> plan is Nothing
            &&& builds.len() > 0 ==> plan is Builds
        }),
{
    let builds = builds_of_stream(tags, client.stream, first);
    let sorted = newest_first(builds);
    law_newest_builds(builds, builds.len());
    let kept = match limit {
        Some(n) => at_most(sorted, n),
        None => sorted,
    };
    let targets = client.targets(kept);
    assert forall|i: int, j: int| 0 <= i < j < targets.len() implies (
    #[trigger] targets[i]).date.spec_key() >= (#[trigger] targets[j]).date.spec_key() by {
        assert(kept[i] == sorted[i] && kept[j] == sorted[j]);
    }
    law_arranged_by_key(builds, newest_keys(builds));
    if builds.len() > 0 {
        assert(client.plan(tags, today, first, limit) == VersionPlanView::Builds(targets));
    }
}

/// The addresses of a registry, and references of its images.
pub proof fn law_addresses(client: ClientView, image: Seq<char>, tag: Seq<char>)
    ensures
        client.reference(image, tag) == client.registry + "/"@ + client.org + "/"@ + image + ":"@
            + tag,
        client.manifest_address(image, tag) == "https://"@ + client.registry + "/v2/"@ + client.org
            + "/"@ + image + "/manifests/"@ + tag,
        client.tags_address() == "https://"@ + client.registry + "/v2/"@ + client.org + "/"@
            + client.image + "/tags/list?n=1000"@,
        client.token_address() == "https://"@ + client.registry + "/token?scope=repository:"@
            + client.org + "/"@ + client.image + ":pull&service="@ + client.registry,
        client.target(CalendarDate { year: 0, month: 1, day: 1 }, tag).full_ref == client.reference(
            client.image,
            tag,
        ),
        client.target(CalendarDate { year: 0, month: 1, day: 1 }, tag).url
            == client.manifest_address(client.image, tag),
{
}

/// What a manifest says of a build is taken over: its version, else the digits of its
/// day; its kernel; the first eight characters of its commit, or all where it is shorter;
/// and its time, else midnight of its day.
pub proof fn law_annotations(
    annotations: Map<Seq<char>, Seq<char>>,
    date: CalendarDate,
    full_ref: Seq<char>,
)
    ensures
        ({
            let v = annotated_version(annotations, date, full_ref);
            let midnight = Timestamp { date, hour: 0, minute: 0, second: 0, nanosecond: 0 };
            let version = "org.opencontainers.image.version"@;
            let kernel = "ostree.linux"@;
            let revision = "org.opencontainers.image.revision"@;
            let created = "org.opencontainers.image.created"@;
            &&& v.date == date && v.full_ref == full_ref
            &&& annotations.dom().contains(version) ==> v.version == annotations[version]
            &&& !annotations.dom().contains(version) ==> v.version == compact_date(date)
            &&& annotations.dom().contains(kernel) ==> v.kernel == annotations[kernel]
            &&& !annotations.dom().contains(kernel) ==> v.kernel.len() == 0
            &&& !annotations.dom().contains(revision) ==> v.revision.len() == 0
            &&& annotations.dom().contains(revision) && annotations[revision].len() <= 8
                ==> v.revision == annotations[revision]
            &&& annotations.dom().contains(revision) && annotations[revision].len() > 8
                ==> v.revision == annotations[revision].take(8)
            &&& !annotations.dom().contains(created) ==> v.created == midnight
            &&& annotations.dom().contains(created) && rfc3339_value(annotations[created]) is None
                ==> v.created == midnight
            &&& annotations.dom().contains(created) && rfc3339_value(annotations[created]) is Some
                ==> Some(v.created) == rfc3339_value(annotations[created])
        }),
{
}

/// A tag of at most eighty bytes that is no digest is offered where it has no day, and,
/// as long as there are no more than thirty dated builds, where it is a build of the
/// client's stream. A longer tag or a digest is never offered.
pub proof fn law_tags_offered(tags: Seq<Seq<char>>, stream: Seq<char>, tag: Seq<char>)
    requires
        tags.contains(tag),
    ensures
        ({
            let fits = encode_utf8(tag).len() <= 80 && !begins_with(tag, "sha256:"@);
            let offered = offered_tags(tags, stream);
            &&& !fits ==> !offered.contains(tag)
            &&& fits && build_day(tag, stream) is None && stream_of(tag) is None && compact_value(
                tag,
            ) is None ==> offered.contains(tag)
            &&& fits && build_day(tag, stream) is Some && builds_of_stream(
                tags,
                stream,
                None,
            ).len() <= 30 ==> offered.contains(tag)
            &&& build_day(tag, stream) is None && (stream_of(tag) is Some || compact_value(
                tag,
            ) is Some) ==> !offered.contains(tag)
        }),
{
    broadcast use vstd::seq_lib::group_to_multiset_ensures;

    let offered = offered_tags(tags, stream);
    if offered.contains(tag) {
        law_offered_tags(tags, stream, tag);
    }
    let i = choose|i: int| 0 <= i < tags.len() && tags[i] == tag;
    if !unusable_tag(tag) && build_day(tag, stream) is None && stream_of(tag) is None
        && compact_value(tag) is None {
        law_streams_offered(tags, stream, i);
    }
    if !unusable_tag(tag) && build_day(tag, stream) is Some && builds_of_stream(
        tags,
        stream,
        None,
    ).len() <= 30 {
        let usable = tags.filter(is_usable());
        tags.lemma_filter_contains(is_usable(), i);
        let build = DatedTagView { date: build_day(tag, stream).unwrap(), tag };
        let builds = builds_of_stream(usable, stream, None);
        law_builds_of_stream(usable, stream, None, build);
        lemma_fewer_builds(tags, stream, is_usable());
        let newest = newest_first(builds);
        law_newest_builds(builds, builds.len());
        assert(builds.to_multiset().count(build) > 0);
        assert(newest.to_multiset().count(build) > 0);
        let k = choose|k: int| 0 <= k < newest.len() && newest[k] == build;
        let kept = at_most(newest, DATED_TAGS_MAX as int);
        law_arranged_by_key(builds, newest_keys(builds));
        assert(newest.len() == builds.len());
        assert(kept == newest);
        let streams = ascending(tags.filter(is_stream_tag(stream)));
        assert(tags_of(kept)[k] == tag);
        assert(offered[streams.len() + k] == tag);
    }
}

proof fn lemma_fewer_builds(
    tags: Seq<Seq<char>>,
    stream: Seq<char>,
    test: spec_fn(Seq<char>) -> bool,
)
    ensures
        builds_of_stream(tags.filter(test), stream, None).len() <= builds_of_stream(
            tags,
            stream,
            None,
        ).len(),
    decreases tags.len(),
{
    reveal(Seq::filter);
    if tags.len() > 0 {
        let rest = tags.drop_last();
        lemma_fewer_builds(rest, stream, test);
        if test(tags.last()) {
            assert(tags.filter(test).drop_last() =~= rest.filter(test));
            assert(tags.filter(test).last() == tags.last());
        }
    }
}

/// Offered tags come in two groups: the streams in alphabetical order, then at most
/// thirty builds, the latest day first.
pub proof fn law_offered_order(tags: Seq<Seq<char>>, stream: Seq<char>)
    ensures
        exists|n: int|
            0 <= n <= #[trigger] offered_tags(tags, stream).take(n).len() && n
                <= offered_tags(tags, stream).len() && offered_tags(tags, stream).len() - n <= 30 && (
            forall|i: int, j: int|
                0 <= i < j < n ==> lex_le(
                    #[trigger] offered_tags(tags, stream)[i],
                    #[trigger] offered_tags(tags, stream)[j],
                )) && (forall|i: int|
                0 <= i < n ==> build_day(#[trigger] offered_tags(tags, stream)[i], stream) is None)
                && (forall|i: int|
                n <= i < offered_tags(tags, stream).len() ==> build_day(
                    #[trigger] offered_tags(tags, stream)[i],
                    stream,
                ) is Some) && (forall|i: int, j: int|
                n <= i < j < offered_tags(tags, stream).len() ==> build_day(
                    #[trigger] offered_tags(tags, stream)[i],
                    stream,
                ).unwrap().spec_key() >= build_day(
                    #[trigger] offered_tags(tags, stream)[j],
                    stream,
                ).unwrap().spec_key()),
{
    broadcast use vstd::seq_lib::group_to_multiset_ensures;

    let offered = offered_tags(tags, stream);
    let streams = tags.filter(is_stream_tag(stream));
    let sorted = ascending(streams);
    let usable = tags.filter(is_usable());
    let builds = builds_of_stream(usable, stream, None);
    let newest = newest_first(builds);
    let kept = at_most(newest, DATED_TAGS_MAX as int);
    law_arranged_by_text(streams);
    law_newest_builds(builds, DATED_TAGS_MAX as nat);
    let n = sorted.len() as int;
    assert forall|i: int| 0 <= i < n implies build_day(#[trigger] offered[i], stream) is None by {
        assert(offered[i] == sorted[i]);
        assert(sorted.to_multiset().count(sorted[i]) > 0);
        assert(streams.to_multiset().count(sorted[i]) > 0);
        assert(streams.contains(sorted[i]));
        let m = choose|m: int| 0 <= m < streams.len() && streams[m] == sorted[i];
        tags.lemma_filter_pred(is_stream_tag(stream), m);
    }
    assert forall|i: int| n <= i < offered.len() implies build_day(#[trigger] offered[i], stream)
        == Some(newest[i - n].date) by {
        let build = newest[i - n];
        assert(kept[i - n] == build);
        assert(offered[i] == tags_of(kept)[i - n]);
        assert(newest.to_multiset().count(build) > 0);
        assert(builds.to_multiset().count(build) > 0);
        assert(builds.contains(build));
        law_builds_of_stream(usable, stream, None, build);
    }
    assert(offered.take(n).len() == n);
}

/// An ASCII word gets a capital at its beginning and is otherwise unchanged; a name of
/// words between dashes keeps its words and its dashes.
pub proof fn law_title_case(words: Seq<Seq<char>>, i: int)
    requires
        words.len() > 0,
        forall|k: int| 0 <= k < words.len() ==> !(#[trigger] words[k]).contains('-'),
        0 <= i < words.len(),
    ensures
        title_case(join(words, seq!['-'])) == join(
            words.map_values(|w: Seq<char>| capitalized(w)),
            "-"@,
        ),
        words[i].len() == 0 ==> capitalized(words[i]).len() == 0,
        words[i].len() > 0 && (words[i][0] as u32) < 0x80 ==> {
            &&& capitalized(words[i]).len() == words[i].len()
            &&& capitalized(words[i]).skip(1) == words[i].skip(1)
            &&& 'a' <= words[i][0] <= 'z' ==> capitalized(words[i])[0] as u32 + 32
                == words[i][0] as u32
            &&& !('a' <= words[i][0] <= 'z') ==> capitalized(words[i])[0] == words[i][0]
        },
{
    law_split_join(words, '-');
    assert(split(join(words, seq!['-']), '-').map_values(|word: Seq<char>| capitalized(word))
        =~= words.map_values(|w: Seq<char>| capitalized(w)));
    if words[i].len() > 0 && (words[i][0] as u32) < 0x80 {
        assert(capitalized(words[i]).skip(1) =~= words[i].skip(1));
    }
}

/// Every image that the registry has is among the variants, at the client's stream, and
/// those behind the client's own come in the order in which the registry was asked.
pub proof fn law_variants_complete(client: ClientView, hits: Seq<Seq<char>>, hit: Seq<char>)
    requires
        hits.contains(hit),
    ensures
        exists|i: int|
            0 <= i < client.variants(hits).len() && (#[trigger] client.variants(hits)[i]).image
                == hit,
        forall|i: int|
            0 <= i < client.variants(hits).len() ==> (#[trigger] client.variants(hits)[i]).full_ref
                == client.registry + "/"@ + client.org + "/"@ + client.variants(hits)[i].image + ":"@
                + client.stream && client.variants(hits)[i].display_name == title_case(
                client.variants(hits)[i].image,
            ),
{
    let others = hits.filter(client.is_other());
    let list = client.variants(hits);
    if hit == client.image {
        assert(list[0].image == hit);
    } else {
        let m = choose|m: int| 0 <= m < hits.len() && hits[m] == hit;
        hits.lemma_filter_contains(client.is_other(), m);
        let k = choose|k: int| 0 <= k < others.len() && others[k] == hit;
        assert(list[k + 1] == client.variant(others[k]));
    }
    assert forall|i: int| 0 <= i < list.len() implies (#[trigger] list[i]).full_ref
        == client.registry + "/"@ + client.org + "/"@ + list[i].image + ":"@ + client.stream
        && list[i].display_name == title_case(list[i].image) by {
        if i > 0 {
            assert(list[i] == client.variant(others[i - 1]));
        }
    }
}

/// What comes back of a plan is what could be read of it, no more and no less; there is
/// an error exactly where nothing was planned, or the latest build could not be read.
pub proof fn law_fetched(
    plan: VersionPlanView,
    stream: Seq<char>,
    fetched: Seq<Option<ImageVersion>>,
)
    ensures
        fetched_versions(plan, stream, fetched) matches Ok(versions) ==> versions.to_multiset()
            == found_views(fetched).to_multiset() && !(plan is Nothing),
        fetched_versions(plan, stream, fetched) matches Err(e) ==> e == RegistryErrorView::NoTags(
            stream,
        ) && (plan is Nothing || (plan is Latest && found_views(fetched).len() == 0)),
        plan is Builds ==> fetched_versions(plan, stream, fetched) is Ok,
{
    law_versions_sorted(found_views(fetched), 0);
}

/// What could be read are the builds that are there, in their order: where all are, each
/// stands at its place.
pub proof fn law_found(fetched: Seq<Option<ImageVersion>>)
    ensures
        found_views(fetched).len() <= fetched.len(),
        (forall|i: int| 0 <= i < fetched.len() ==> (#[trigger] fetched[i]) is Some) ==> {
            &&& found_views(fetched).len() == fetched.len()
            &&& forall|i: int|
                0 <= i < fetched.len() ==> #[trigger] found_views(fetched)[i]
                    == fetched[i].unwrap()@
        },
        (forall|i: int| 0 <= i < fetched.len() ==> (#[trigger] fetched[i]) is None)
            ==> found_views(fetched).len() == 0,
    decreases fetched.len(),
{
    if fetched.len() > 0 {
        let front = fetched.drop_last();
        law_found(front);
        let n = fetched.len() - 1;
        if forall|i: int| 0 <= i < fetched.len() ==> (#[trigger] fetched[i]) is Some {
            assert forall|i: int| 0 <= i < front.len() implies (#[trigger] front[i]) is Some by {
                assert(fetched[i] is Some);
            }
            assert(fetched[n] is Some);
            assert forall|i: int| 0 <= i < fetched.len() implies #[trigger] found_views(fetched)[i]
                == fetched[i].unwrap()@ by {
                if i < n {
                    assert(found_views(front)[i] == front[i].unwrap()@);
                }
            }
        }
        if forall|i: int| 0 <= i < fetched.len() ==> (#[trigger] fetched[i]) is None {
            assert forall|i: int| 0 <= i < front.len() implies (#[trigger] front[i]) is None by {
                assert(fetched[i] is None);
            }
            assert(fetched[n] is None);
        }
    }
}

/// The errors of a registry, in words.
pub proof fn law_registry_errors(text: Seq<char>)
    ensures
        registry_error_text(RegistryErrorView::Network(text)) == "Network error: "@ + text,
        registry_error_text(RegistryErrorView::NoTags(text)) == "No dated tags found for stream '"@
            + text + "'"@,
        registry_error_text(RegistryErrorView::NoCurrentImage)
            == "Unable to detect current image — is bootc installed?"@,
{
}

/// The address and the reference of a build are those of its tag, and its day stays with
/// it.
pub proof fn law_target(client: ClientView, date: CalendarDate, tag: Seq<char>)
    ensures
        client.target(date, tag).date == date,
        client.target(date, tag).url == "https://"@ + client.registry + "/v2/"@ + client.org + "/"@
            + client.image + "/manifests/"@ + tag,
        client.target(date, tag).full_ref == client.registry + "/"@ + client.org + "/"@
            + client.image + ":"@ + tag,
{
}

/// A limited plan is the beginning of the plan without a limit.
pub proof fn law_plan_limit(
    client: ClientView,
    tags: Seq<Seq<char>>,
    today: CalendarDate,
    first: Option<CalendarDate>,
    n: int,
)
    requires
        0 <= n,
    ensures
        client.plan(tags, today, first, None) matches VersionPlanView::Builds(all) ==> client.plan(
            tags,
            today,
            first,
            Some(n),
        ) == VersionPlanView::Builds(
            if n < all.len() {
                all.take(n)
            } else {
                all
            },
        ),
        !(client.plan(tags, today, first, None) is Builds) ==> client.plan(
            tags,
            today,
            first,
            Some(n),
        ) == client.plan(tags, today, first, None),
{
    let builds = builds_of_stream(tags, client.stream, first);
    let sorted = newest_first(builds);
    law_newest_builds(builds, 0);
    if n < sorted.len() {
        assert(client.targets(sorted.take(n)) =~= client.targets(sorted).take(n));
    }
}

/// What is found of two lists one after the other is what is found of the first and then
/// of the second: the order is kept, and a build that could not be read hides no other.
pub proof fn law_found_in_order(
    a: Seq<Option<ImageVersion>>,
    b: Seq<Option<ImageVersion>>,
    v: ImageVersion,
)
    ensures
        found_views(a + b) == found_views(a) + found_views(b),
        found_views(seq![Some(v)]) == seq![v@],
        found_views(seq![None::<ImageVersion>]).len() == 0,
    decreases b.len(),
{
    let one = seq![Some(v)];
    let none = seq![None::<ImageVersion>];
    assert(one.drop_last() =~= Seq::empty());
    assert(none.drop_last() =~= Seq::empty());
    assert(found_views(one.drop_last()) =~= Seq::empty());
    assert(found_views(none.drop_last()) =~= Seq::empty());
    assert(found_views(one) =~= seq![v@]);
    if b.len() == 0 {
        assert(a + b =~= a);
        assert(found_views(a) + found_views(b) =~= found_views(a));
    } else {
        law_found_in_order(a, b.drop_last(), v);
        assert((a + b).drop_last() =~= a + b.drop_last());
        assert((a + b).last() == b.last());
        assert(found_views(a + b) =~= found_views(a) + found_views(b));
    }
}

/// The builds among two lists of tags one after the other are those of the first and then
/// those of the second.
pub proof fn law_builds_in_order(
    a: Seq<Seq<char>>,
    b: Seq<Seq<char>>,
    stream: Seq<char>,
    first: Option<CalendarDate>,
)
    ensures
        builds_of_stream(a + b, stream, first) == builds_of_stream(a, stream, first)
            + builds_of_stream(b, stream, first),
    decreases b.len(),
{
    if b.len() == 0 {
        assert(a + b =~= a);
        assert(builds_of_stream(a, stream, first) + builds_of_stream(b, stream, first)
            =~= builds_of_stream(a, stream, first));
    } else {
        law_builds_in_order(a, b.drop_last(), stream, first);
        assert((a + b).drop_last() =~= a + b.drop_last());
        assert((a + b).last() == b.last());
        assert(builds_of_stream(a + b, stream, first) =~= builds_of_stream(a, stream, first)
            + builds_of_stream(b, stream, first));
    }
}

/// What `bootc` or the release file tells settles the detection: the client that it
/// describes is found, and where it describes none, detection goes on or ends.
pub proof fn law_detection_result(
    mock: Option<MockIdentity>,
    output: Option<Vec<u8>>,
    content: Option<String>,
)
    ensures
        ({
            let asked = detection_step(mock, DetectEvent::BootcStatus(output));
            let read = detection_step(mock, DetectEvent::OsRelease(content));
            &&& output matches Some(document) ==> (status_client(document@) matches Some(c)
                ==> asked == DetectStepView::Found(c))
            &&& output matches Some(document) ==> (status_client(document@) is None
                ==> asked is ReadOsRelease)
            &&& output is None ==> asked is ReadOsRelease
            &&& content matches Some(text) ==> (release_client(text@) matches Some(c) ==> read
                == DetectStepView::Found(c))
            &&& content matches Some(text) ==> (release_client(text@) is None ==> read is Unknown)
            &&& content is None ==> read is Unknown
        }),
{
}

/// A reference of three parts in the release file goes before the name and the version; a
/// reference of fewer parts counts for nothing, and the name and the version decide.
pub proof fn law_release_precedence(
    content: Seq<char>,
    registry: Seq<char>,
    org: Seq<char>,
    image: Seq<char>,
    name: Seq<char>,
    version: Seq<char>,
)
    requires
        !registry.contains('/'),
        !org.contains('/'),
    ensures
        ({
            let lines = lines_of(content);
            let whole = registry.push('/') + (org.push('/') + image);
            &&& last_value(lines, "IMAGE_REF="@) == Some(whole) && !contains_text(
                whole,
                "docker://"@,
            ) ==> (release_client(content) matches Some(c) && c.registry == registry && c.org
                == org && c.image == image)
            &&& last_value(lines, "IMAGE_REF="@) == Some(registry.push('/') + org)
                && !contains_text(registry.push('/') + org, "docker://"@) && last_value(
                lines,
                "IMAGE_ID="@,
            ) == Some(name) && last_value(lines, "VERSION_ID="@) == Some(version) ==> (
            release_client(content) matches Some(c) && c.registry == "ghcr.io"@ && c.image == name)
        }),
{
    reveal_strlit("/");
    assert("/"@ =~= seq!['/']);
    let whole = registry.push('/') + (org.push('/') + image);
    lemma_reference_parts(registry, org, image);
    lemma_find_text(whole, "docker://"@);
    lemma_find_text(registry.push('/') + org, "docker://"@);
    law_split_concat(registry, org, '/');
    law_split_join(seq![registry], '/');
    law_split_join(seq![org], '/');
}

/// The images behind the client's own are the other ones that the registry has, in the
/// order in which it was asked.
pub proof fn law_variant_order(client: ClientView, hits: Seq<Seq<char>>, i: int)
    requires
        0 <= i < hits.filter(|image: Seq<char>| image != client.image).len(),
    ensures
        client.variants(hits).len() == hits.filter(
            |image: Seq<char>| image != client.image,
        ).len() + 1,
        client.variants(hits)[0].image == client.image,
        client.variants(hits)[i + 1].image == hits.filter(
            |image: Seq<char>| image != client.image,
        )[i],
{
    assert(client.is_other() =~= (|image: Seq<char>| image != client.image));
}

/// The builds of the last so many days are planned, and nothing older.
pub proof fn law_window_days(
    client: ClientView,
    tags: Seq<Seq<char>>,
    today: CalendarDate,
    days: int,
    tag: Seq<char>,
    day: CalendarDate,
)
    requires
        today.wf(),
        day.wf(),
        0 <= days,
        days_before_year(MIN_YEAR as int) < today.day_number() - days,
    ensures
        client.window(tags, today, days) matches VersionPlanView::Builds(targets) && (exists|
            i: int,
        |
            0 <= i < targets.len() && (#[trigger] targets[i]).date == day && targets[i].full_ref
                == client.registry + "/"@ + client.org + "/"@ + client.image + ":"@ + tag) <==> tags.contains(
            tag,
        ) && build_day(tag, client.stream) == Some(day) && today.day_number() - day.day_number()
            <= days,
{
    lemma_day_number_bound(today);
    law_days_without_gaps(today.day_number() - days);
    law_window(client, tags, today, days, tag, day);
    match client.window(tags, today, days) {
        VersionPlanView::Builds(targets) => {
            if targets.contains(client.target(day, tag)) {
                let i = choose|i: int|
                    0 <= i < targets.len() && targets[i] == client.target(day, tag);
                assert(targets[i].date == day);
            }
            if exists|i: int|
                0 <= i < targets.len() && (#[trigger] targets[i]).date == day
                    && targets[i].full_ref == client.registry + "/"@ + client.org + "/"@
                    + client.image + ":"@ + tag {
                let i = choose|i: int|
                    0 <= i < targets.len() && (#[trigger] targets[i]).date == day
                        && targets[i].full_ref == client.registry + "/"@ + client.org + "/"@
                        + client.image + ":"@ + tag;
                let first = Some(days_earlier(today, days));
                let list = newest_first(builds_of_stream(tags, client.stream, first));
                assert(targets == client.targets(list));
                let t = list[i];
                assert(targets[i] == client.target(t.date, t.tag));
                let p = client.registry + "/"@ + client.org + "/"@ + client.image + ":"@;
                assert((p + t.tag).skip(p.len() as int) =~= t.tag);
                assert((p + tag).skip(p.len() as int) =~= tag);
                assert(t.tag == tag);
                assert(targets.contains(client.target(day, tag)));
            }
        },
        _ => {},
    }
}

/// The versions that come back are in order of their days, the earliest first.
pub proof fn law_fetched_in_order(
    plan: VersionPlanView,
    stream: Seq<char>,
    fetched: Seq<Option<ImageVersion>>,
    i: int,
    j: int,
)
    ensures
        fetched_versions(plan, stream, fetched) matches Ok(versions) ==> (0 <= i < j
            < versions.len() ==> versions[i].date.spec_key() <= versions[j].date.spec_key()),
{
    law_versions_sorted(found_views(fetched), 0);
}

/// The registry is asked for the images of a family that has the client's own image, where
/// there is one.
pub proof fn law_candidates(client: ClientView)
    ensures
        client.candidates() matches Some(images) ==> images.contains(client.image) && exists|
            k: int,
        |
            0 <= k < catalogue().len() && (#[trigger] catalogue()[k]).org == client.org
                && catalogue()[k].images == images,
        client.candidates() is None ==> forall|k: int|
            0 <= k < catalogue().len() && (#[trigger] catalogue()[k]).org == client.org
                ==> !catalogue()[k].images.contains(client.image),
{
    law_best_match(client.org, client.image, client.stream);
    let test = holds_image(client.org, client.image);
    match best_of(catalogue().filter(test), client.stream) {
        Some(f) => {
            let k = choose|k: int| 0 <= k < catalogue().len() && catalogue()[k] == f;
            assert(catalogue()[k].org == client.org);
        },
        None => {
            assert forall|k: int|
                0 <= k < catalogue().len() && (#[trigger] catalogue()[k]).org
                    == client.org implies !catalogue()[k].images.contains(client.image) by {
                assert(!test(catalogue()[k]));
            }
        },
    }
}

} // verus!
