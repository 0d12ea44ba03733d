//! Image references and the updater service.

use finupdate::family::known_families;
use finupdate::registry_client::{ImageVersion, RegistryClient, RegistryError};
use finupdate::date::CalendarDate;
use finupdate::service::{
    family_info, feature_display_name, feature_subtitle, BootcUpdaterService, FamilyInfo, ImageRef,
    ServiceError,
};

#[test]
fn image_ref_parse_roundtrip() {
    let r = ImageRef::parse("ghcr.io/ublue-os/bluefin:stable-daily-43.20260527").unwrap();
    assert_eq!(r.registry, "ghcr.io");
    assert_eq!(r.org, "ublue-os");
    assert_eq!(r.image, "bluefin");
    assert_eq!(r.tag, "stable-daily-43.20260527");
    assert_eq!(
        r.as_string(),
        "ghcr.io/ublue-os/bluefin:stable-daily-43.20260527"
    );
}

#[test]
fn image_ref_parse_rejects_missing_tag() {
    assert!(ImageRef::parse("ghcr.io/ublue-os/bluefin").is_none());
}

#[test]
fn image_ref_parse_rejects_missing_registry() {
    assert!(ImageRef::parse("ublue-os/bluefin:stable").is_none());
}

#[test]
fn resolve_target_routes_to_known_family() {
    let svc = BootcUpdaterService;
    let family = FamilyInfo {
        name: "Bluefin Stable".to_string(),
        base_image: "bluefin".to_string(),
        features: vec![],
    };
    let r = svc.resolve_target(&family, &["nvidia".to_string()]);
    assert!(r.is_some());
    let r = r.unwrap();
    assert_eq!(r.image, "bluefin-nvidia");
}

#[test]
fn resolve_target_returns_none_for_unpublished_combo() {
    let svc = BootcUpdaterService;
    let family = FamilyInfo {
        name: "Bluefin Stable".to_string(),
        base_image: "bluefin".to_string(),
        features: vec![],
    };
    // "open" alone (without nvidia) isn't a published Bluefin image.
    let r = svc.resolve_target(&family, &["open".to_string()]);
    assert!(r.is_none());
}

#[test]
fn resolve_target_is_whole_and_order_free() {
    let svc = BootcUpdaterService::default();
    let family = FamilyInfo {
        name: "Bluefin Dakota".to_string(),
        base_image: "dakota".to_string(),
        features: vec![],
    };
    let a = svc.resolve_target(&family, &["nvidia".to_string(), "dx".to_string()]).unwrap();
    let b = svc.resolve_target(&family, &["dx".to_string(), "nvidia".to_string()]).unwrap();
    assert_eq!(a, b);
    assert_eq!(a.as_string(), "ghcr.io/projectbluefin/dakota-dx-nvidia:latest");
    let none = svc.resolve_target(&family, &[]).unwrap();
    assert_eq!(none.image, "dakota");
    let lts = FamilyInfo { name: "Bluefin LTS".to_string(), ..family.clone() };
    let target = svc.resolve_target(&lts, &["gdx".to_string()]).unwrap();
    assert_eq!(target.as_string(), "ghcr.io/ublue-os/bluefin-gdx:lts");
    let unknown = FamilyInfo { name: "Nobody".to_string(), ..family };
    assert!(svc.resolve_target(&unknown, &[]).is_none());
}

#[test]
fn image_ref_with_nested_image_and_port() {
    let r = ImageRef::parse("localhost:5000/org/a/b:tag").unwrap();
    assert_eq!(r.registry, "localhost:5000");
    assert_eq!(r.org, "org");
    assert_eq!(r.image, "a/b");
    assert_eq!(r.tag, "tag");
    assert_eq!(r.as_string(), "localhost:5000/org/a/b:tag");
    assert_eq!(ImageRef::parse(&r.as_string()), Some(r));
}

#[test]
fn image_ref_that_is_not_canonical_does_not_come_back() {
    let r = ImageRef {
        registry: "a/b".to_string(),
        org: "c".to_string(),
        image: "d".to_string(),
        tag: "t".to_string(),
    };
    let back = ImageRef::parse(&r.as_string()).unwrap();
    assert_eq!(back.registry, "a");
    assert_ne!(back, r);
}

#[test]
fn family_info_lists_features_in_order() {
    let families = known_families();
    let info = family_info(&families[0]);
    assert_eq!(info.name, "Bluefin Stable");
    assert_eq!(info.base_image, "bluefin");
    let ids: Vec<&str> = info.features.iter().map(|f| f.id.as_str()).collect();
    assert_eq!(ids, vec!["asus", "dx", "framework", "nvidia", "open", "surface"]);
    assert_eq!(info.features[3].display_name, "NVIDIA drivers (proprietary)");
    assert_eq!(info.features[3].subtitle, "Use the closed-source NVIDIA driver");
}

#[test]
fn features_have_names() {
    assert_eq!(feature_display_name("deck"), "Steam Deck profile");
    assert_eq!(feature_display_name("hwe"), "Hardware-enablement kernel (HWE)");
    assert_eq!(feature_display_name("zfs"), "Variant feature");
    assert_eq!(feature_subtitle("gdx"), "GNOME-focused developer toolchain");
    assert_eq!(feature_subtitle("zfs"), "Additional ublue extras");
}

#[test]
fn current_image_needs_detection() {
    let svc = BootcUpdaterService;
    let client = RegistryClient::new("ghcr.io", "ublue-os", "aurora", "stable");
    let image = svc.current_image(&Some(client)).unwrap();
    assert_eq!(image.as_string(), "ghcr.io/ublue-os/aurora:stable");
    let elsewhere = RegistryClient::new("quay.io", "fedora", "fedora-bootc", "42");
    let image = svc.current_image(&Some(elsewhere)).unwrap();
    assert_eq!(image.as_string(), "quay.io/fedora/fedora-bootc:42");
    let error = svc.current_image(&None).unwrap_err();
    assert!(matches!(error, ServiceError::NotFound(_)));
    assert_eq!(error.message(), "not found: no booted image detected");
}

#[test]
fn current_family_of_known_and_unknown_images() {
    let svc = BootcUpdaterService;
    let lts = RegistryClient::new("ghcr.io", "ublue-os", "bluefin", "lts-hwe");
    assert_eq!(svc.current_family(&Some(lts)).unwrap().name, "Bluefin LTS");
    let other = RegistryClient::new("ghcr.io", "someone", "bluefin", "stable");
    assert!(svc.current_family(&Some(other)).is_none());
    assert!(svc.current_family(&None).is_none());
}

fn version(day: u32) -> ImageVersion {
    let date = CalendarDate::from_ymd_opt(2026, 5, day).unwrap();
    ImageVersion {
        date,
        full_ref: format!("ref-{}", day),
        version: format!("v{}", day),
        kernel: String::new(),
        revision: String::new(),
        created: date.at(0, 0),
    }
}

#[test]
fn list_versions_gives_newest_first() {
    let svc = BootcUpdaterService;
    let fetched = Ok(vec![version(3), version(9), version(5)]);
    let list = svc.list_versions(&fetched, 2).unwrap();
    let names: Vec<&str> = list.iter().map(|v| v.version.as_str()).collect();
    assert_eq!(names, vec!["v9", "v5"]);
    assert_eq!(svc.list_versions(&fetched, 10).unwrap().len(), 3);
    assert!(svc.list_versions(&fetched, 0).unwrap().is_empty());
    let failed = Err(RegistryError::NoTags("stable".to_string()));
    let error = svc.list_versions(&failed, 2).unwrap_err();
    assert_eq!(error.message(), "registry: No dated tags found for stream 'stable'");
}

#[test]
fn versions_client_takes_the_tag_as_stream() {
    let svc = BootcUpdaterService;
    let image = ImageRef::parse("ghcr.io/ublue-os/bazzite:testing").unwrap();
    let client = svc.versions_client(&image);
    assert_eq!(client.org(), "ublue-os");
    assert_eq!(client.stream(), "testing");
}

#[test]
fn service_errors_in_words() {
    assert_eq!(ServiceError::Registry("x".to_string()).message(), "registry: x");
    assert_eq!(ServiceError::Io("x".to_string()).message(), "io: x");
    assert_eq!(ServiceError::Unsupported("x".to_string()).message(), "unsupported: x");
    let image = ImageRef::parse("a/b/c:d").unwrap();
    assert_eq!(
        BootcUpdaterService.switch_image(&image).message(),
        "unsupported: switch_image streaming not yet implemented; use run_bootc_switch directly"
    );
}
