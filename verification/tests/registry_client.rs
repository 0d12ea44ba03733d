//! Tags, families and image references.

use finupdate::date::CalendarDate;
use finupdate::family::Family;
use finupdate::registry_client::parse_image_ref;
use finupdate::tag::{parse_dated_tag, strip_date_suffix};

// ── strip_date_suffix ────────────────────────────────────────────────

#[test]
fn strip_date_suffix_dot_form() {
    assert_eq!(
        strip_date_suffix("stable-daily-43.20260222"),
        Some("stable-daily-43".to_string())
    );
}

#[test]
fn strip_date_suffix_dash_form() {
    assert_eq!(
        strip_date_suffix("stable-daily-43-20260222"),
        Some("stable-daily-43".to_string())
    );
}

#[test]
fn strip_date_suffix_rejects_non_date_suffix() {
    assert_eq!(strip_date_suffix("latest"), None);
    assert_eq!(strip_date_suffix("stable-daily"), None);
    assert_eq!(strip_date_suffix("stable.notadate"), None);
}

#[test]
fn strip_date_suffix_rejects_wrong_length() {
    assert_eq!(strip_date_suffix("stream-1234567"), None); // 7 digits
    assert_eq!(strip_date_suffix("stream-123456789"), None); // 9 digits
}

#[test]
fn strip_date_suffix_rejects_non_digit_chars() {
    assert_eq!(strip_date_suffix("stream-2026022x"), None);
}

// ── parse_dated_tag ──────────────────────────────────────────────────

#[test]
fn parse_dated_tag_dot_separator() {
    let d = parse_dated_tag("stable-daily-43.20260222", "stable-daily-43").unwrap();
    assert_eq!(d, CalendarDate::from_ymd_opt(2026, 2, 22).unwrap());
}

#[test]
fn parse_dated_tag_dash_separator() {
    let d = parse_dated_tag("stable-daily-43-20260222", "stable-daily-43").unwrap();
    assert_eq!(d, CalendarDate::from_ymd_opt(2026, 2, 22).unwrap());
}

#[test]
fn parse_dated_tag_rejects_unrelated_tag() {
    assert!(parse_dated_tag("latest", "stable-daily-43").is_none());
    assert!(parse_dated_tag("dev-daily-20260222", "stable-daily").is_none());
}

#[test]
fn parse_dated_tag_rejects_invalid_calendar_date() {
    // 2026-02-30 isn't a real date.
    assert!(parse_dated_tag("stable.20260230", "stable").is_none());
}

// ── parse_dated_tag: the tag formats of each family ────────────────────

/// Bluefin: `stable-daily-43.20260222` for stream `"stable"` (prefix match).
#[test]
fn parse_dated_tag_bluefin_stable_daily_dot() {
    let d = parse_dated_tag("stable-daily-43.20260222", "stable").unwrap();
    assert_eq!(d, CalendarDate::from_ymd_opt(2026, 2, 22).unwrap());
}

/// Bluefin: `43-43.20260222` for stream `"43"` (exact prefix match).
#[test]
fn parse_dated_tag_bluefin_version_qualified_dot() {
    let d = parse_dated_tag("43-43.20260222", "43").unwrap();
    assert_eq!(d, CalendarDate::from_ymd_opt(2026, 2, 22).unwrap());
}

/// Bluefin LTS: `lts-hwe.20260224` for stream `"lts"` (prefix match).
#[test]
fn parse_dated_tag_bluefin_lts_hwe_dot() {
    let d = parse_dated_tag("lts-hwe.20260224", "lts").unwrap();
    assert_eq!(d, CalendarDate::from_ymd_opt(2026, 2, 24).unwrap());
}

/// Bluefin LTS, dash variant: `lts-hwe-20260224` for stream `"lts"`.
#[test]
fn parse_dated_tag_bluefin_lts_hwe_dash() {
    let d = parse_dated_tag("lts-hwe-20260224", "lts").unwrap();
    assert_eq!(d, CalendarDate::from_ymd_opt(2026, 2, 24).unwrap());
}

/// Bazzite: `testing-43.20260308.1` — sub-revision is stripped before
/// extracting the date.
#[test]
fn parse_dated_tag_bazzite_sub_revision() {
    let d = parse_dated_tag("testing-43.20260308.1", "testing").unwrap();
    assert_eq!(d, CalendarDate::from_ymd_opt(2026, 3, 8).unwrap());
}

/// Bazzite: `testing-43.20260301` without sub-revision still works.
#[test]
fn parse_dated_tag_bazzite_no_sub_revision() {
    let d = parse_dated_tag("testing-43.20260301", "testing").unwrap();
    assert_eq!(d, CalendarDate::from_ymd_opt(2026, 3, 1).unwrap());
}

/// Dakota: `latest.20260114` for stream `"latest"` (exact prefix).
#[test]
fn parse_dated_tag_dakota_latest_dot() {
    let d = parse_dated_tag("latest.20260114", "latest").unwrap();
    assert_eq!(d, CalendarDate::from_ymd_opt(2026, 1, 14).unwrap());
}

/// Dakota: bare `20260114` accepted when stream is "latest" (implicit).
#[test]
fn parse_dated_tag_dakota_bare_date() {
    let d = parse_dated_tag("20260114", "latest").unwrap();
    assert_eq!(d, CalendarDate::from_ymd_opt(2026, 1, 14).unwrap());
}

/// Bare date is also accepted when stream is empty (no qualifier).
#[test]
fn parse_dated_tag_bare_date_empty_stream() {
    let d = parse_dated_tag("20260114", "").unwrap();
    assert_eq!(d, CalendarDate::from_ymd_opt(2026, 1, 14).unwrap());
}

/// Bare date is REJECTED when stream is anything else: a tag like
/// `20260114` doesn't belong in stream `"stable"` results.
#[test]
fn parse_dated_tag_bare_date_rejected_for_qualified_stream() {
    assert!(parse_dated_tag("20260114", "stable").is_none());
}

/// Cross-family contamination: a `gts-*` tag must not appear in `stable`
/// results even if the date is valid.
#[test]
fn parse_dated_tag_rejects_other_family() {
    assert!(parse_dated_tag("gts-daily-42.20260527", "stable").is_none());
}

/// Sub-revision must be 1–4 digits; `testing-43.20260308.55555` would be
/// a malformed tag.
#[test]
fn parse_dated_tag_rejects_long_sub_revision() {
    assert!(parse_dated_tag("testing-43.20260308.55555", "testing").is_none());
}

/// `stable.20260527` — the `.20260527` is the date separator, not a
/// sub-revision. The sub-revision stripper must not over-fire here.
#[test]
fn parse_dated_tag_does_not_strip_date_as_sub_revision() {
    let d = parse_dated_tag("stable.20260527", "stable").unwrap();
    assert_eq!(d, CalendarDate::from_ymd_opt(2026, 5, 27).unwrap());
}

// ── strip_date_suffix: sub-revisions and bare dates ─────────────────

#[test]
fn strip_date_suffix_strips_sub_revision() {
    assert_eq!(
        strip_date_suffix("testing-43.20260308.1"),
        Some("testing-43".to_string())
    );
}

#[test]
fn strip_date_suffix_bare_date_returns_none() {
    // Bare date has no stream prefix to return.
    assert_eq!(strip_date_suffix("20260114"), None);
}

// ── Family taxonomy disambiguation ──────────────────────────────────

#[test]
fn family_best_match_disambiguates_bluefin_stable_vs_lts_by_stream() {
    // The image `ublue-os/bluefin` belongs to both Bluefin Stable and
    // Bluefin LTS. The stream picks which family the user is on.
    let stable = Family::best_match("ublue-os", "bluefin", "stable").unwrap();
    assert_eq!(stable.name, "Bluefin Stable");

    let lts = Family::best_match("ublue-os", "bluefin", "lts").unwrap();
    assert_eq!(lts.name, "Bluefin LTS");

    let lts_hwe = Family::best_match("ublue-os", "bluefin", "lts-hwe").unwrap();
    assert_eq!(lts_hwe.name, "Bluefin LTS");
}

#[test]
fn family_best_match_falls_back_to_first_when_stream_unknown() {
    // Unknown stream → first family containing the image wins.
    let f = Family::best_match("ublue-os", "bluefin", "moonshot-fictional").unwrap();
    // Bluefin Stable is declared first in KNOWN_FAMILIES.
    assert_eq!(f.name, "Bluefin Stable");
}

#[test]
fn family_best_match_finds_aurora_by_image_alone() {
    let f = Family::best_match("ublue-os", "aurora", "stable").unwrap();
    assert_eq!(f.name, "Aurora");
    assert!(f.images.contains(&"aurora-nvidia"));
}

#[test]
fn family_best_match_finds_bazzite_gnome_separately_from_kde() {
    let kde = Family::best_match("ublue-os", "bazzite", "stable").unwrap();
    assert_eq!(kde.name, "Bazzite KDE");

    let gnome = Family::best_match("ublue-os", "bazzite-gnome", "stable").unwrap();
    assert_eq!(gnome.name, "Bazzite GNOME");
}

#[test]
fn family_best_match_returns_none_for_unknown_image() {
    assert!(Family::best_match("ublue-os", "totally-fake-image", "stable").is_none());
}

// ── Family feature switches ─────────────────────────────────────────

#[test]
fn family_base_image_is_first_in_list() {
    let bluefin = Family::best_match("ublue-os", "bluefin", "stable").unwrap();
    assert_eq!(bluefin.base_image(), "bluefin");
    let dakota = Family::best_match("projectbluefin", "dakota", "latest").unwrap();
    assert_eq!(dakota.base_image(), "dakota");
}

#[test]
fn family_available_features_lists_atomic_suffixes() {
    let bluefin = Family::best_match("ublue-os", "bluefin", "stable").unwrap();
    let feats = bluefin.available_features();
    // From images like bluefin-nvidia / bluefin-nvidia-open / bluefin-dx /
    // bluefin-dx-nvidia / bluefin-dx-nvidia-open / bluefin-asus / etc.
    assert!(feats.contains(&"nvidia"));
    assert!(feats.contains(&"open"));
    assert!(feats.contains(&"dx"));
    assert!(feats.contains(&"asus"));
    assert!(feats.contains(&"surface"));
    assert!(feats.contains(&"framework"));
    // Alphabetical for stable UI rendering.
    let mut sorted = feats.clone();
    sorted.sort();
    assert_eq!(feats, sorted);
}

#[test]
fn family_select_image_for_features_resolves_combinations() {
    let bluefin = Family::best_match("ublue-os", "bluefin", "stable").unwrap();

    // Empty features → base.
    assert_eq!(bluefin.select_image_for_features(&[]), Some("bluefin"));
    // Single feature.
    assert_eq!(
        bluefin.select_image_for_features(&["nvidia"]),
        Some("bluefin-nvidia")
    );
    assert_eq!(bluefin.select_image_for_features(&["dx"]), Some("bluefin-dx"));
    // Two features, order-independent.
    assert_eq!(
        bluefin.select_image_for_features(&["dx", "nvidia"]),
        Some("bluefin-dx-nvidia")
    );
    assert_eq!(
        bluefin.select_image_for_features(&["nvidia", "dx"]),
        Some("bluefin-dx-nvidia")
    );
    // Three features — Bluefin Stable ships bluefin-dx-nvidia-open.
    assert_eq!(
        bluefin.select_image_for_features(&["dx", "nvidia", "open"]),
        Some("bluefin-dx-nvidia-open")
    );
}

#[test]
fn family_select_image_for_features_returns_none_for_invalid_combo() {
    let bluefin = Family::best_match("ublue-os", "bluefin", "stable").unwrap();
    // "open" alone (without nvidia) doesn't map to a published image.
    assert!(bluefin.select_image_for_features(&["open"]).is_none());
    // "dx" + "framework" isn't a real combination.
    assert!(bluefin
        .select_image_for_features(&["dx", "framework"])
        .is_none());
}

#[test]
fn family_select_image_for_dakota_features() {
    let dakota = Family::best_match("projectbluefin", "dakota", "latest").unwrap();
    assert_eq!(dakota.select_image_for_features(&[]), Some("dakota"));
    assert_eq!(
        dakota.select_image_for_features(&["nvidia"]),
        Some("dakota-nvidia")
    );
}

#[test]
fn family_all_for_image_returns_both_bluefin_families() {
    let families = Family::all_for_image("ublue-os", "bluefin");
    let names: Vec<&str> = families.iter().map(|f| f.name).collect();
    assert!(names.contains(&"Bluefin Stable"));
    assert!(names.contains(&"Bluefin LTS"));
}

#[test]
fn strip_date_suffix_does_not_strip_non_date_as_sub_revision() {
    // `stable.20260527` is `stream.date`, not `stream.sub-revision`.
    assert_eq!(
        strip_date_suffix("stable.20260527"),
        Some("stable".to_string())
    );
}

// ── parse_image_ref ──────────────────────────────────────────────────

#[test]
fn parse_image_ref_full_ghcr_with_dot_date() {
    let c = parse_image_ref("ghcr.io/ublue-os/bluefin:stable-daily-43.20260222").unwrap();
    assert_eq!(c.registry(), "ghcr.io");
    assert_eq!(c.org(), "ublue-os");
    assert_eq!(c.image(), "bluefin");
    assert_eq!(c.stream(), "stable-daily-43");
}

#[test]
fn parse_image_ref_full_ghcr_with_dash_date() {
    let c = parse_image_ref("ghcr.io/projectbluefin/dakota:latest-20260527").unwrap();
    assert_eq!(c.stream(), "latest");
}

#[test]
fn parse_image_ref_rejects_missing_org_or_image() {
    assert!(parse_image_ref("ghcr.io:tag").is_none()); // no slashes
    assert!(parse_image_ref("ghcr.io/org:tag").is_none()); // only 2 parts
}

#[test]
fn parse_image_ref_rejects_tag_without_date() {
    assert!(parse_image_ref("ghcr.io/ublue-os/bluefin:latest").is_none());
}

#[test]
fn parse_image_ref_handles_nested_image_path() {
    // Some registries use multi-segment image paths.
    let c = parse_image_ref(
        "ghcr.io/ublue-os/bluefin-dx/extras:stable-daily.20260222",
    ).unwrap();
    assert_eq!(c.image(), "bluefin-dx/extras");
}
