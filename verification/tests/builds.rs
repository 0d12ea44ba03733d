//! Detecting the running image and arranging the builds of a registry.

use finupdate::date::{CalendarDate, Timestamp};
use finupdate::registry_client::{
    booted_image, collect_versions, display_name, parse_image_ref, version_from_manifest,
    with_lead, DetectEvent, DetectStep, ImageVersion, RegistryClient, RegistryError, VersionPlan,
    HISTORY_MAX,
};
use finupdate::json::{is_json, JsonNode};
use finupdate::settings::{MockIdentity, Settings};
use finupdate::tag::{is_bare_day, parse_dated_tag, strip_date_suffix};
use finupdate::text_map::TextMap;

fn day(y: i32, m: u32, d: u32) -> CalendarDate {
    CalendarDate::from_ymd_opt(y, m, d).unwrap()
}

fn strings(list: &[&str]) -> Vec<String> {
    list.iter().map(|s| s.to_string()).collect()
}

fn bluefin() -> RegistryClient {
    RegistryClient::new("ghcr.io", "ublue-os", "bluefin", "stable")
}

fn found(step: DetectStep) -> RegistryClient {
    match step {
        DetectStep::Found(client) => client,
        other => panic!("no image found: {:?}", other),
    }
}

#[test]
fn all_forms_of_a_tag_have_one_stream() {
    for tag in ["a-b.20260101", "a-b-20260101", "a-b.20260101.7", "a-b-20260101.1234"] {
        assert_eq!(strip_date_suffix(tag), Some("a-b".to_string()));
        assert_eq!(parse_dated_tag(tag, "a"), Some(day(2026, 1, 1)));
        assert_eq!(parse_dated_tag(tag, "a-b"), Some(day(2026, 1, 1)));
        assert_eq!(parse_dated_tag(tag, "b"), None);
    }
    assert_eq!(strip_date_suffix("a.20260101.12345"), None);
    assert_eq!(strip_date_suffix(".20260101"), Some(String::new()));
    assert_eq!(strip_date_suffix("ñ.20260101"), Some("ñ".to_string()));
    assert_eq!(strip_date_suffix(""), None);
}

#[test]
fn bare_days_of_implicit_streams() {
    assert_eq!(parse_dated_tag("20260114", "latest"), Some(day(2026, 1, 14)));
    assert_eq!(parse_dated_tag("20260114.1", "latest"), None);
    assert_eq!(parse_dated_tag("20261332", "latest"), None);
    assert_eq!(parse_dated_tag("-20260114", ""), Some(day(2026, 1, 14)));
    assert!(is_bare_day("20260114"));
    assert!(!is_bare_day("20261332"));
    assert!(!is_bare_day("x0260114"));
    assert!(!is_bare_day("202601140"));
}

#[test]
fn a_pretended_image_needs_no_question() {
    let mut settings = Settings::default();
    assert!(matches!(
        RegistryClient::detect_with_settings(&settings, &DetectEvent::Start),
        DetectStep::AskBootc
    ));
    settings.mock_identity = Some(MockIdentity {
        registry: "quay.io".to_string(),
        org: "me".to_string(),
        image: "img".to_string(),
        tag: "gts-42.20260101".to_string(),
    });
    let client = found(RegistryClient::detect_with_settings(&settings, &DetectEvent::Start));
    assert_eq!(client.registry(), "quay.io");
    assert_eq!(client.org(), "me");
    assert_eq!(client.image(), "img");
    assert_eq!(client.stream(), "gts-42");
}

#[test]
fn bootc_is_believed_first_and_the_release_file_last() {
    let settings = Settings::default();
    let json = br#"{"status":{"booted":{"image":{"image":{"image":"ghcr.io/ublue-os/aurora:stable.20260102"}}}}}"#;
    let client = found(RegistryClient::detect_with_settings(
        &settings,
        &DetectEvent::BootcStatus(Some(json.to_vec())),
    ));
    assert_eq!(client.image(), "aurora");
    assert_eq!(client.stream(), "stable");
    for output in [None, Some(b"not json".to_vec()), Some(b"{}".to_vec())] {
        assert!(matches!(
            RegistryClient::detect_with_settings(&settings, &DetectEvent::BootcStatus(output)),
            DetectStep::ReadOsRelease
        ));
    }
    let release = "IMAGE_ID=bazzite\nVERSION_ID=latest\n".to_string();
    let client = found(RegistryClient::detect_with_settings(
        &settings,
        &DetectEvent::OsRelease(Some(release)),
    ));
    assert_eq!(client.org(), "ublue-os");
    assert_eq!(client.stream(), "latest");
    assert!(matches!(
        RegistryClient::detect_with_settings(&settings, &DetectEvent::OsRelease(None)),
        DetectStep::Unknown
    ));
}

#[test]
fn both_places_of_the_booted_image() {
    let short = br#"{"status":{"booted":{"image":{"image":"ghcr.io/a/b:s.20260102"}}}}"#;
    assert_eq!(RegistryClient::detect_from_bootc(short).unwrap().image(), "b");
    let wrong = br#"{"status":{"booted":{"image":{"image":{"image":7}}}}}"#;
    assert!(RegistryClient::detect_from_bootc(wrong).is_none());
    let undated = br#"{"status":{"booted":{"image":{"image":"ghcr.io/a/b:latest"}}}}"#;
    assert!(RegistryClient::detect_from_bootc(undated).is_none());
    assert_eq!(
        booted_image(JsonNode::Absent, JsonNode::Text("x".to_string())),
        Some("x".to_string())
    );
    assert_eq!(booted_image(JsonNode::Null, JsonNode::Text("x".to_string())), None);
    assert_eq!(
        booted_image(JsonNode::Text("y".to_string()), JsonNode::Invalid),
        Some("y".to_string())
    );
}

#[test]
fn documents_that_are_json() {
    assert!(is_json(b"{\"a\":[1]}"));
    assert!(is_json(b"null"));
    assert!(!is_json(b"{"));
    assert!(!is_json(b""));
}

#[test]
fn release_file_with_image_reference() {
    let content = "NAME=x\nIMAGE_REF=\"ostree-image-signed:docker://ghcr.io/ublue-os/bluefin/extra\"\n\
                   IMAGE_TAG=\"stable-daily.20260222\"\n";
    let client = RegistryClient::detect_from_os_release(content).unwrap();
    assert_eq!(client.registry(), "ghcr.io");
    assert_eq!(client.org(), "ublue-os");
    assert_eq!(client.image(), "bluefin/extra");
    assert_eq!(client.stream(), "stable-daily");
    let bare = RegistryClient::detect_from_os_release("IMAGE_REF=quay.io/a/b\n").unwrap();
    assert_eq!(bare.stream(), "latest");
}

#[test]
fn release_file_with_image_name() {
    let dakota = RegistryClient::detect_from_os_release("IMAGE_ID=\"dakota\"\nVERSION_ID=43").unwrap();
    assert_eq!(dakota.registry(), "ghcr.io");
    assert_eq!(dakota.org(), "projectbluefin");
    assert_eq!(dakota.image(), "dakota");
    assert_eq!(dakota.stream(), "stable-daily-43");
    let later = RegistryClient::detect_from_os_release(
        "IMAGE_REF=too/short\nIMAGE_ID=one\nIMAGE_ID=two\nVERSION_ID=1",
    )
    .unwrap();
    assert_eq!(later.image(), "two");
    assert!(RegistryClient::detect_from_os_release("IMAGE_ID=x\n").is_none());
    assert!(RegistryClient::detect_from_os_release("").is_none());
}

#[test]
fn a_build_leads_back_to_its_client() {
    let client = bluefin();
    let tag = format!("{}.{}", client.stream(), day(2026, 5, 27).compact());
    let back = parse_image_ref(&client.full_ref(client.image(), &tag)).unwrap();
    assert_eq!(back.registry(), client.registry());
    assert_eq!(back.org(), client.org());
    assert_eq!(back.image(), client.image());
    assert_eq!(back.stream(), client.stream());
}

#[test]
fn addresses() {
    let client = bluefin();
    assert_eq!(client.tags_url(), "https://ghcr.io/v2/ublue-os/bluefin/tags/list?n=1000");
    assert_eq!(
        client.manifest_url("bluefin-dx", "stable"),
        "https://ghcr.io/v2/ublue-os/bluefin-dx/manifests/stable"
    );
    assert_eq!(
        client.token_url(),
        "https://ghcr.io/token?scope=repository:ublue-os/bluefin:pull&service=ghcr.io"
    );
    assert_eq!(client.full_ref("bluefin", "t"), "ghcr.io/ublue-os/bluefin:t");
}

#[test]
fn all_builds_of_the_window_are_planned() {
    let tags: Vec<String> = (1..=20).map(|d| format!("stable-43.202605{:02}", d)).collect();
    let plan = bluefin().fetch_versions(&tags, day(2026, 5, 27), 90);
    let VersionPlan::Builds(targets) = plan else { panic!("no builds") };
    assert_eq!(targets.len(), 20);
    assert_eq!(targets[0].date, day(2026, 5, 20));
    assert_eq!(targets[19].date, day(2026, 5, 1));
    assert_eq!(targets[0].full_ref, "ghcr.io/ublue-os/bluefin:stable-43.20260520");
    assert_eq!(
        targets[0].url,
        "https://ghcr.io/v2/ublue-os/bluefin/manifests/stable-43.20260520"
    );
}

#[test]
fn a_limit_keeps_the_newest_builds() {
    let tags: Vec<String> = (1..=20).map(|d| format!("stable-43.202605{:02}", d)).collect();
    let first = Some(day(2026, 5, 2));
    let plan = bluefin().plan_versions(&tags, day(2026, 5, 27), first, Some(HISTORY_MAX));
    let VersionPlan::Builds(targets) = plan else { panic!("no builds") };
    assert_eq!(targets.len(), 8);
    assert_eq!(targets[7].date, day(2026, 5, 13));
    let plan = bluefin().plan_versions(&tags, day(2026, 5, 27), first, None);
    let VersionPlan::Builds(targets) = plan else { panic!("no builds") };
    assert_eq!(targets.len(), 19);
}

#[test]
fn every_readable_build_of_the_window_comes_back() {
    let client = bluefin();
    let tags: Vec<String> = (1..=12).map(|d| format!("stable.202605{:02}", d)).collect();
    let plan = client.fetch_versions(&tags, day(2026, 5, 12), 30);
    let VersionPlan::Builds(targets) = &plan else { panic!("no builds") };
    let fetched = targets
        .iter()
        .map(|t| version_from_manifest(t.date, t.full_ref.clone(), &Some(TextMap::new())))
        .collect();
    let versions = client.finish_versions(&plan, fetched).unwrap();
    assert_eq!(versions.len(), 12);
    for tag in &tags {
        let full_ref = client.full_ref(client.image(), tag);
        assert!(versions.iter().any(|v| v.full_ref == full_ref));
    }
}

#[test]
fn old_builds_do_not_count() {
    let tags = strings(&["stable.20260520", "stable.20260519", "other.20260525", "stable"]);
    let plan = bluefin().fetch_versions(&tags, day(2026, 5, 27), 7);
    let VersionPlan::Builds(targets) = plan else { panic!("no builds") };
    assert_eq!(targets.len(), 1);
    assert_eq!(targets[0].date, day(2026, 5, 20));
}

#[test]
fn builds_of_one_day_keep_their_order() {
    let tags = strings(&["stable.20260501", "stable.20260501.2", "stable-20260502"]);
    let plan = bluefin().plan_versions(&tags, day(2026, 5, 27), None, Some(10));
    let VersionPlan::Builds(targets) = plan else { panic!("no builds") };
    let refs: Vec<&str> = targets.iter().map(|t| t.full_ref.as_str()).collect();
    assert_eq!(
        refs,
        vec![
            "ghcr.io/ublue-os/bluefin:stable-20260502",
            "ghcr.io/ublue-os/bluefin:stable.20260501",
            "ghcr.io/ublue-os/bluefin:stable.20260501.2",
        ]
    );
}

#[test]
fn without_builds_the_latest_tag_is_taken() {
    let today = day(2026, 5, 27);
    let client = bluefin();
    let plan = client.fetch_versions(&strings(&["latest", "gts"]), today, 90);
    let VersionPlan::Latest(target) = &plan else { panic!("no latest build") };
    assert_eq!(target.date, today);
    assert_eq!(target.full_ref, "ghcr.io/ublue-os/bluefin:latest");
    assert_eq!(client.finish_versions(&plan, vec![Some(version(day(2026, 5, 27)))]).unwrap().len(), 1);
    assert!(matches!(
        client.finish_versions(&plan, vec![None]),
        Err(RegistryError::NoTags(s)) if s == "stable"
    ));
    let nothing = client.fetch_versions(&strings(&["gts"]), today, 90);
    assert!(matches!(nothing, VersionPlan::Nothing));
    assert!(matches!(
        client.finish_versions(&nothing, vec![]),
        Err(RegistryError::NoTags(s)) if s == "stable"
    ));
}

fn version(date: CalendarDate) -> ImageVersion {
    ImageVersion {
        date,
        full_ref: date.compact(),
        version: date.compact(),
        kernel: String::new(),
        revision: String::new(),
        created: date.at(0, 0),
    }
}

#[test]
fn fetched_builds_come_oldest_first() {
    let list = collect_versions(vec![
        Some(version(day(2026, 5, 9))),
        None,
        Some(version(day(2026, 4, 9))),
    ]);
    let names: Vec<&str> = list.iter().map(|v| v.version.as_str()).collect();
    assert_eq!(names, vec!["20260409", "20260509"]);
    let plan = bluefin().plan_versions(&strings(&["stable.20260501"]), day(2026, 5, 27), None, Some(8));
    assert!(bluefin().finish_versions(&plan, vec![None]).unwrap().is_empty());
}

#[test]
fn offered_tags() {
    let long = "x".repeat(81);
    let tags = strings(&[
        "stable", "gts", "stable.20260501", "sha256:abc", "gts.20260501", &long, "stable-20260503",
        "beta",
    ]);
    assert_eq!(
        bluefin().fetch_available_tags(&tags),
        strings(&["beta", "gts", "stable", "stable-20260503", "stable.20260501"])
    );
    let mixed = strings(&[
        "stable-20260222", "20260114", "stable.20260301", "gts-20260301", "stable", "sha256:ab",
        "gts",
    ]);
    assert_eq!(
        bluefin().fetch_available_tags(&mixed),
        strings(&["gts", "stable", "stable.20260301", "stable-20260222"])
    );
    let many: Vec<String> = (0..40).map(|i| format!("stable.20{:02}0101", 10 + i)).collect();
    let offered = bluefin().fetch_available_tags(&many);
    assert_eq!(offered.len(), 30);
    assert_eq!(offered[0], "stable.20490101");
}

#[test]
fn manifests_become_builds() {
    let mut a = TextMap::new();
    a.insert("org.opencontainers.image.version".to_string(), "43.1".to_string());
    a.insert("ostree.linux".to_string(), "6.14.1".to_string());
    a.insert("org.opencontainers.image.revision".to_string(), "0123456789abcdef".to_string());
    a.insert("org.opencontainers.image.created".to_string(), "2026-05-26T23:30:05+02:00".to_string());
    let date = day(2026, 5, 27);
    let v = version_from_manifest(date, "ref".to_string(), &Some(a)).unwrap();
    assert_eq!(v.version, "43.1");
    assert_eq!(v.kernel, "6.14.1");
    assert_eq!(v.revision, "01234567");
    assert_eq!(v.full_ref, "ref");
    assert_eq!(
        v.created,
        Timestamp { date: day(2026, 5, 26), hour: 21, minute: 30, second: 5, nanosecond: 0 }
    );
    let bare = version_from_manifest(date, "ref".to_string(), &Some(TextMap::new())).unwrap();
    assert_eq!(bare.version, "20260527");
    assert_eq!(bare.kernel, "");
    assert_eq!(bare.revision, "");
    assert_eq!(bare.created, date.at(0, 0));
    let mut b = TextMap::new();
    b.insert("org.opencontainers.image.created".to_string(), "yesterday".to_string());
    assert_eq!(version_from_manifest(date, String::new(), &Some(b)).unwrap().created, date.at(0, 0));
    assert!(version_from_manifest(date, String::new(), &None).is_none());
}

#[test]
fn names_for_people() {
    assert_eq!(display_name("bluefin-dx-nvidia"), "Bluefin-Dx-Nvidia");
    assert_eq!(display_name("ñu--x9"), "Ñu--X9");
    assert_eq!(display_name("ßeta"), "SSeta");
    assert_eq!(display_name(""), "");
    assert_eq!(with_lead("SS", "ßeta"), "SSeta");
    assert_eq!(with_lead("X", ""), "");
}

#[test]
fn the_own_variant_comes_first() {
    let client = RegistryClient::new("ghcr.io", "ublue-os", "bluefin-dx", "stable");
    let candidates = client.variant_candidates().unwrap();
    assert_eq!(candidates[0], "bluefin");
    assert_eq!(candidates.len(), 10);
    let list = client.discover_variants(&strings(&["bluefin", "bluefin-dx", "bluefin-asus"]));
    let images: Vec<&str> = list.iter().map(|v| v.image.as_str()).collect();
    assert_eq!(images, vec!["bluefin-dx", "bluefin", "bluefin-asus"]);
    assert_eq!(list[0].display_name, "Bluefin-Dx");
    assert_eq!(list[0].full_ref, "ghcr.io/ublue-os/bluefin-dx:stable");
    assert_eq!(client.discover_variants(&vec![]).len(), 1);
    let stranger = RegistryClient::new("ghcr.io", "nobody", "x", "stable");
    assert!(stranger.variant_candidates().is_none());
}

#[test]
fn registry_errors_in_words() {
    assert_eq!(RegistryError::Network("down".to_string()).message(), "Network error: down");
    assert_eq!(
        RegistryError::NoTags("lts".to_string()).message(),
        "No dated tags found for stream 'lts'"
    );
    assert_eq!(
        RegistryError::NoCurrentImage.message(),
        "Unable to detect current image — is bootc installed?"
    );
}
