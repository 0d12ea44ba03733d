//! Differences between the packages of two images.

use finupdate::sbom_diff::{
    diff_packages, discover_commands, get_sbom_paths, package_map, pull_commands, pull_reference,
    spdx_digest, spdx_referrer_digest, Referrer, SpdxPackage,
};
use finupdate::text_map::TextMap;

fn map(pairs: &[(&str, &str)]) -> TextMap {
    let mut m = TextMap::new();
    for (k, v) in pairs {
        m.insert(k.to_string(), v.to_string());
    }
    m
}

#[test]
fn packages_change_disappear_and_appear() {
    let booted = map(&[("vim", "1"), ("zsh", "2"), ("bash", "5"), ("amd", "7"), ("mesa", "3")]);
    let target = map(&[("mesa", "4"), ("vim", "2"), ("bash", "5"), ("new", "1"), ("abc", "9")]);
    let diff = diff_packages(&booted, &target);
    let upgraded: Vec<(&str, &str, &str)> = diff
        .upgraded
        .iter()
        .map(|d| (d.name.as_str(), d.old_version.as_str(), d.new_version.as_str()))
        .collect();
    assert_eq!(upgraded, vec![("mesa", "3", "4"), ("vim", "1", "2")]);
    assert_eq!(diff.removed, vec!["amd", "zsh"]);
    let added: Vec<(&str, &str, &str)> = diff
        .added
        .iter()
        .map(|d| (d.name.as_str(), d.old_version.as_str(), d.new_version.as_str()))
        .collect();
    assert_eq!(added, vec![("abc", "", "9"), ("new", "", "1")]);
}

#[test]
fn no_difference_to_itself() {
    let m = map(&[("a", "1"), ("b", "2")]);
    let diff = diff_packages(&m, &m);
    assert!(diff.upgraded.is_empty() && diff.removed.is_empty() && diff.added.is_empty());
}

#[test]
fn the_way_back_is_the_reverse() {
    let a = map(&[("x", "1"), ("y", "1"), ("gone", "1")]);
    let b = map(&[("x", "2"), ("y", "1"), ("came", "1")]);
    let there = diff_packages(&a, &b);
    let back = diff_packages(&b, &a);
    assert_eq!(there.removed, vec!["gone"]);
    assert_eq!(back.removed, vec!["came"]);
    assert_eq!(back.added[0].name, "gone");
    assert_eq!(back.upgraded[0].old_version, there.upgraded[0].new_version);
    assert_eq!(back.upgraded[0].new_version, there.upgraded[0].old_version);
}

fn package(name: &str, version: Option<&str>) -> SpdxPackage {
    SpdxPackage { name: name.to_string(), version_info: version.map(|v| v.to_string()) }
}

#[test]
fn packages_by_name() {
    let m = package_map(&Some(vec![
        package("a", Some("1")),
        package("b", None),
        package("a", Some("2")),
    ]));
    assert_eq!(m.len(), 2);
    assert_eq!(m.get("a"), Some("2"));
    assert_eq!(m.get("b"), Some("unknown"));
    assert_eq!(package_map(&None).len(), 0);
}

#[test]
fn the_first_spdx_document_is_taken() {
    let json = br#"{"referrers":[
        {"artifactType":"application/vnd.cosign","digest":"sha256:0"},
        {"artifactType":"application/vnd.spdx+json","digest":"sha256:1"},
        {"artifactType":"application/vnd.spdx+json","digest":"sha256:2"}]}"#;
    assert_eq!(spdx_referrer_digest(json), Some("sha256:1".to_string()));
    assert_eq!(spdx_referrer_digest(b"{\"referrers\":[]}"), None);
    assert_eq!(spdx_referrer_digest(b"{\"referrers\":7}"), None);
    assert_eq!(spdx_referrer_digest(b"nonsense"), None);
    let without = br#"{"referrers":[{"artifactType":"application/vnd.spdx+json"},
        {"artifactType":"application/vnd.spdx+json","digest":"sha256:2"}]}"#;
    assert_eq!(spdx_referrer_digest(without), None);
}

#[test]
fn referrers_without_types_are_passed_over() {
    let list = vec![
        Referrer { artifact_type: None, digest: Some("d0".to_string()) },
        Referrer {
            artifact_type: Some("application/vnd.spdx+json".to_string()),
            digest: Some("d1".to_string()),
        },
    ];
    assert_eq!(spdx_digest(&list), Some("d1".to_string()));
    assert_eq!(spdx_digest(&vec![]), None);
}

#[test]
fn places_of_documents() {
    assert_eq!(
        get_sbom_paths("sha256:ab", false, Some("/h"), Some("u")),
        ("/tmp/finupdate/sbom/sha256_ab".to_string(), "/tmp/finupdate/sbom/sha256_ab".to_string())
    );
    assert_eq!(
        get_sbom_paths("sha256:ab", true, Some("/h"), Some("u")),
        (
            "/var/home/u/.var/app/org.projectbluefin.Finupdate.Devel/cache/finupdate/sbom/sha256_ab"
                .to_string(),
            "/h/.cache/finupdate/sbom/sha256_ab".to_string()
        )
    );
    let (write, read) = get_sbom_paths("d", true, None, None);
    assert!(write.starts_with("/var/home/james/"));
    assert_eq!(read, "/home/james/.cache/finupdate/sbom/d");
}

#[test]
fn references_of_documents() {
    assert_eq!(pull_reference("ghcr.io/a/b:tag", "sha256:1"), "ghcr.io/a/b@sha256:1");
    assert_eq!(pull_reference("ghcr.io/a/b", "sha256:1"), "ghcr.io/a/b@sha256:1");
}

#[test]
fn oras_is_tried_in_its_places() {
    let native = discover_commands(false, "r");
    assert_eq!(native.len(), 4);
    assert_eq!(native[0].program, "oras");
    assert_eq!(native[0].args, vec!["discover", "--format", "json", "--depth", "1", "r"]);
    assert_eq!(native[3].program, "/usr/bin/oras");
    let inside = pull_commands(true, "dir", "ref");
    assert_eq!(inside.len(), 5);
    assert_eq!(inside[2].program, "flatpak-spawn");
    assert_eq!(
        inside[2].args,
        vec!["--host", "/home/james/.linuxbrew/bin/oras", "pull", "--output", "dir", "ref"]
    );
}
