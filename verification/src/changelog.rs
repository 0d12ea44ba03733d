//! The changelog of a version: what it shows of the builds, packages and commits
//! that are known.

use crate::app::PreflightStatus;
use crate::date::{compact_date, long_date, month_day, short_date, CalendarDate};
use crate::number::{decimal, lemma_four_digits, lemma_two_digits, u64_text};
use crate::registry_client::{version_views, ImageVersion, ImageVersionView};
use crate::sbom_diff::{PackageDiffView, SbomDiffResult, SbomDiffView};
use crate::text::{
    byte_cut, byte_prefix, cuttable, law_byte_cut_ascii, optional_view, owned_views, str_eq,
};
use vstd::prelude::*;
use vstd::utf8::{is_ascii_chars, is_ascii_chars_encode_utf8};

verus! {

/// A commit.
#[derive(Debug, Clone)]
pub struct Commit {
    pub sha: String,
    pub message: String,
    pub author: String,
}

/// What a commit holds.
#[verifier::ext_equal]
pub struct CommitView {
    pub sha: Seq<char>,
    pub message: Seq<char>,
    pub author: Seq<char>,
}

impl View for Commit {
    type V = CommitView;

    open spec fn view(&self) -> CommitView {
        CommitView { sha: self.sha@, message: self.message@, author: self.author@ }
    }
}

/// The views of a list of commits.
pub open spec fn commit_views(list: Seq<Commit>) -> Seq<CommitView> {
    list.map_values(|c: Commit| c@)
}

/// A part of an image and its version.
#[derive(Debug, Clone)]
pub struct StackItem {
    pub name: String,
    pub version: String,
    /// Whether the version is new.
    pub bumped: bool,
}

/// What a part holds.
#[verifier::ext_equal]
pub struct StackItemView {
    pub name: Seq<char>,
    pub version: Seq<char>,
    pub bumped: bool,
}

impl View for StackItem {
    type V = StackItemView;

    open spec fn view(&self) -> StackItemView {
        StackItemView { name: self.name@, version: self.version@, bumped: self.bumped }
    }
}

/// The views of a list of parts.
pub open spec fn stack_views(list: Seq<StackItem>) -> Seq<StackItemView> {
    list.map_values(|c: StackItem| c@)
}

/// The version of a part as it is shown.
pub open spec fn shown_version(part: StackItemView) -> Seq<char> {
    if part.bumped {
        part.version + " ↑"@
    } else {
        part.version
    }
}

impl StackItem {
    /// The version as it is shown: new ones have an arrow.
    pub fn label(&self) -> (res: String)
        ensures
            res@ == shown_version(self@),
    {
        let mut text: String = self.version.as_str().to_owned();
        if self.bumped {
            text.append(" ↑");
        }
        text
    }
}

/// A package that changes its version.
#[derive(Debug, Clone)]
pub struct PackageChange {
    pub name: String,
    pub from: String,
    pub to: String,
}

/// What a change holds.
#[verifier::ext_equal]
pub struct PackageChangeView {
    pub name: Seq<char>,
    pub from: Seq<char>,
    pub to: Seq<char>,
}

impl View for PackageChange {
    type V = PackageChangeView;

    open spec fn view(&self) -> PackageChangeView {
        PackageChangeView { name: self.name@, from: self.from@, to: self.to@ }
    }
}

/// The views of a list of changes.
pub open spec fn change_views(list: Seq<PackageChange>) -> Seq<PackageChangeView> {
    list.map_values(|c: PackageChange| c@)
}

/// A version that the page can switch to.
#[derive(Debug, Clone)]
pub struct VersionChoice {
    pub label: String,
    pub version: String,
    pub selected: bool,
}

/// What a choice holds.
#[verifier::ext_equal]
pub struct VersionChoiceView {
    pub label: Seq<char>,
    pub version: Seq<char>,
    pub selected: bool,
}

impl View for VersionChoice {
    type V = VersionChoiceView;

    open spec fn view(&self) -> VersionChoiceView {
        VersionChoiceView { label: self.label@, version: self.version@, selected: self.selected }
    }
}

/// The views of a list of choices.
pub open spec fn choice_views(list: Seq<VersionChoice>) -> Seq<VersionChoiceView> {
    list.map_values(|c: VersionChoice| c@)
}

/// What the version is to the running system.
#[derive(Debug, Clone, Copy, PartialEq, Eq, Structural)]
pub enum Badge {
    /// It can be installed.
    Update,
    /// It is booted.
    Booted,
    /// Neither.
    Plain,
}

/// A part of an image.
pub open spec fn item(name: Seq<char>, version: Seq<char>, bumped: bool) -> StackItemView {
    StackItemView { name, version, bumped }
}

/// A package that changes.
pub open spec fn change(name: Seq<char>, from: Seq<char>, to: Seq<char>) -> PackageChangeView {
    PackageChangeView { name, from, to }
}

/// A commit.
pub open spec fn commit(sha: Seq<char>, message: Seq<char>, author: Seq<char>) -> CommitView {
    CommitView { sha, message, author }
}

/// A version to switch to.
pub open spec fn choice(label: Seq<char>, version: Seq<char>, selected: bool) -> VersionChoiceView {
    VersionChoiceView { label, version, selected }
}

fn new_item(name: &str, version: &str, bumped: bool) -> (res: StackItem)
    ensures
        res@ == item(name@, version@, bumped),
{
    StackItem { name: name.to_owned(), version: version.to_owned(), bumped }
}

fn new_change(name: &str, from: &str, to: &str) -> (res: PackageChange)
    ensures
        res@ == change(name@, from@, to@),
{
    PackageChange { name: name.to_owned(), from: from.to_owned(), to: to.to_owned() }
}

fn new_commit(sha: &str, message: &str, author: &str) -> (res: Commit)
    ensures
        res@ == commit(sha@, message@, author@),
{
    Commit { sha: sha.to_owned(), message: message.to_owned(), author: author.to_owned() }
}

fn new_choice(label: &str, version: &str, selected: bool) -> (res: VersionChoice)
    ensures
        res@ == choice(label@, version@, selected),
{
    VersionChoice { label: label.to_owned(), version: version.to_owned(), selected }
}

/// The build of an example version.
pub open spec fn example_build(version: Seq<char>) -> Seq<char> {
    if version == "43"@ {
        "stable-20260527"@
    } else if version == "42"@ {
        "stable-20260524"@
    } else if version == "41"@ {
        "stable-20260415"@
    } else {
        ""@
    }
}

/// The day of an example version.
pub open spec fn example_date(version: Seq<char>) -> Seq<char> {
    if version == "43"@ {
        "May 27, 2026"@
    } else if version == "42"@ {
        "May 24, 2026"@
    } else if version == "41"@ {
        "Apr 15, 2026"@
    } else {
        ""@
    }
}

/// What an example version is about.
pub open spec fn example_summary(version: Seq<char>) -> Seq<char> {
    if version == "43"@ {
        "Fedora 43 base bump · new kernel · GNOME 50.1"@
    } else if version == "42"@ {
        "Currently booted. Kernel 6.13.7 · stable point release."@
    } else if version == "41"@ {
        "Final Fedora 41 maintenance build."@
    } else {
        ""@
    }
}

/// The build of an example version.
fn example_build_text(version: &str) -> (res: &'static str)
    ensures
        res@ == example_build(version@),
{
    if str_eq(version, "43") {
        "stable-20260527"
    } else if str_eq(version, "42") {
        "stable-20260524"
    } else if str_eq(version, "41") {
        "stable-20260415"
    } else {
        ""
    }
}

/// The day of an example version.
fn example_date_text(version: &str) -> (res: &'static str)
    ensures
        res@ == example_date(version@),
{
    if str_eq(version, "43") {
        "May 27, 2026"
    } else if str_eq(version, "42") {
        "May 24, 2026"
    } else if str_eq(version, "41") {
        "Apr 15, 2026"
    } else {
        ""
    }
}

/// What an example version is about.
fn example_summary_text(version: &str) -> (res: &'static str)
    ensures
        res@ == example_summary(version@),
{
    if str_eq(version, "43") {
        "Fedora 43 base bump · new kernel · GNOME 50.1"
    } else if str_eq(version, "42") {
        "Currently booted. Kernel 6.13.7 · stable point release."
    } else if str_eq(version, "41") {
        "Final Fedora 41 maintenance build."
    } else {
        ""
    }
}

/// The parts of an example version.
pub open spec fn example_stack(version: Seq<char>) -> Seq<StackItemView> {
    if version == "43"@ {
        seq![
            item("Kernel"@, "6.14.1-300.fc43"@, true),
            item("GNOME"@, "50.1"@, true),
            item("Mesa"@, "26.0.7"@, false),
            item("Podman"@, "5.8.2"@, true),
            item("Nvidia"@, "595.71.05-1"@, false),
            item("bootc"@, "1.4.2"@, false),
            item("systemd"@, "259.5"@, false),
            item("pipewire"@, "1.6.5"@, true),
            item("flatpak"@, "1.17.7"@, false),
        ]
    } else if version == "42"@ {
        seq![
            item("Kernel"@, "6.13.7-300.fc42"@, false),
            item("GNOME"@, "49.4"@, false),
            item("Mesa"@, "26.0.6"@, false),
            item("Podman"@, "5.8.0"@, false),
            item("Nvidia"@, "595.71.05-1"@, false),
            item("bootc"@, "1.4.2"@, false),
            item("systemd"@, "259.5"@, false),
            item("pipewire"@, "1.6.5"@, false),
            item("flatpak"@, "1.17.7"@, false),
        ]
    } else if version == "41"@ {
        seq![
            item("Kernel"@, "6.12.9-100.fc41"@, false),
            item("GNOME"@, "48.2"@, false),
            item("Mesa"@, "25.3.4"@, false),
            item("Podman"@, "5.6.0"@, false),
        ]
    } else {
        Seq::empty()
    }
}

/// The packages that an example version upgrades.
pub open spec fn example_upgrades(version: Seq<char>) -> Seq<PackageChangeView> {
    if version == "43"@ {
        seq![
            change("Docker"@, "29.5.1-1"@, "29.5.2-1"@),
            change("Mesa"@, "26.0.6-4"@, "26.0.7-4"@),
            change("amd-gpu-firmware"@, "20260410-1"@, "20260519-1"@),
            change("bind"@, "9.18.48-1"@, "9.18.49-1"@),
            change("pipewire"@, "1.6.5-1"@, "1.6.5-2"@),
            change("tailscale"@, "1.98.2-1"@, "1.98.3-1"@),
            change("vim"@, "9.2.390-1"@, "9.2.506-2"@),
        ]
    } else if version == "42"@ {
        seq![
            change("kernel"@, "6.13.6"@, "6.13.7-300"@),
            change("firefox"@, "142.0"@, "143.0"@),
            change("gnome-shell"@, "49.3"@, "49.4"@),
        ]
    } else if version == "41"@ {
        seq![
            change("kernel"@, "6.12.4"@, "6.12.9-100"@),
            change("gnome-shell"@, "48.1"@, "48.2"@),
        ]
    } else {
        Seq::empty()
    }
}

/// The packages that an example version removes.
pub open spec fn example_removals(version: Seq<char>) -> Seq<Seq<char>> {
    if version == "43"@ {
        seq!["framework-laptop-kmod-common"@, "libde265"@, "uvg266"@, "vvdec"@]
    } else {
        Seq::empty()
    }
}

/// The commits of an example version.
pub open spec fn example_commits(version: Seq<char>) -> Seq<CommitView> {
    if version == "43"@ {
        seq![
            commit(
                "60e72be"@,
                "fix: ensure xdg-desktop-portal starts after gnome-keyring-daemon (#4539)"@,
                "Yang Ye"@,
            ),
            commit(
                "b6a0f5c"@,
                "feat(changelogs): Use SBOMs for standardized package data extraction (#4635)"@,
                "Dylan M. Taylor"@,
            ),
            commit(
                "7036e3e"@,
                "Adds ROCm Info utility (#4661)"@,
                "Italo"@,
            ),
            commit(
                "7eef3d2"@,
                "feat(extension): Add gradia capture extension (#4651)"@,
                "Coda"@,
            ),
        ]
    } else if version == "42"@ {
        seq![
            commit(
                "12ab34c"@,
                "chore: weekly Fedora 42 base refresh"@,
                "fedora-bootc bot"@,
            ),
        ]
    } else {
        Seq::empty()
    }
}

fn new_example_stack(version: &str) -> (res: Vec<StackItem>)
    ensures
        stack_views(res@) == example_stack(version@),
{
    let list: Vec<StackItem> = if str_eq(version, "43") {
        vec![
            new_item("Kernel", "6.14.1-300.fc43", true),
            new_item("GNOME", "50.1", true),
            new_item("Mesa", "26.0.7", false),
            new_item("Podman", "5.8.2", true),
            new_item("Nvidia", "595.71.05-1", false),
            new_item("bootc", "1.4.2", false),
            new_item("systemd", "259.5", false),
            new_item("pipewire", "1.6.5", true),
            new_item("flatpak", "1.17.7", false),
        ]
    } else if str_eq(version, "42") {
        vec![
            new_item("Kernel", "6.13.7-300.fc42", false),
            new_item("GNOME", "49.4", false),
            new_item("Mesa", "26.0.6", false),
            new_item("Podman", "5.8.0", false),
            new_item("Nvidia", "595.71.05-1", false),
            new_item("bootc", "1.4.2", false),
            new_item("systemd", "259.5", false),
            new_item("pipewire", "1.6.5", false),
            new_item("flatpak", "1.17.7", false),
        ]
    } else if str_eq(version, "41") {
        vec![
            new_item("Kernel", "6.12.9-100.fc41", false),
            new_item("GNOME", "48.2", false),
            new_item("Mesa", "25.3.4", false),
            new_item("Podman", "5.6.0", false),
        ]
    } else {
        Vec::new()
    };
    assert(stack_views(list@) =~= example_stack(version@));
    list
}

fn new_example_upgrades(version: &str) -> (res: Vec<PackageChange>)
    ensures
        change_views(res@) == example_upgrades(version@),
{
    let list: Vec<PackageChange> = if str_eq(version, "43") {
        vec![
            new_change("Docker", "29.5.1-1", "29.5.2-1"),
            new_change("Mesa", "26.0.6-4", "26.0.7-4"),
            new_change("amd-gpu-firmware", "20260410-1", "20260519-1"),
            new_change("bind", "9.18.48-1", "9.18.49-1"),
            new_change("pipewire", "1.6.5-1", "1.6.5-2"),
            new_change("tailscale", "1.98.2-1", "1.98.3-1"),
            new_change("vim", "9.2.390-1", "9.2.506-2"),
        ]
    } else if str_eq(version, "42") {
        vec![
            new_change("kernel", "6.13.6", "6.13.7-300"),
            new_change("firefox", "142.0", "143.0"),
            new_change("gnome-shell", "49.3", "49.4"),
        ]
    } else if str_eq(version, "41") {
        vec![
            new_change("kernel", "6.12.4", "6.12.9-100"),
            new_change("gnome-shell", "48.1", "48.2"),
        ]
    } else {
        Vec::new()
    };
    assert(change_views(list@) =~= example_upgrades(version@));
    list
}

fn new_example_removals(version: &str) -> (res: Vec<String>)
    ensures
        owned_views(res@) == example_removals(version@),
{
    let list: Vec<String> = if str_eq(version, "43") {
        vec![
            "framework-laptop-kmod-common".to_owned(),
            "libde265".to_owned(),
            "uvg266".to_owned(),
            "vvdec".to_owned(),
        ]
    } else {
        Vec::new()
    };
    assert(owned_views(list@) =~= example_removals(version@));
    list
}

fn new_example_commits(version: &str) -> (res: Vec<Commit>)
    ensures
        commit_views(res@) == example_commits(version@),
{
    let list: Vec<Commit> = if str_eq(version, "43") {
        vec![
            new_commit(
                "60e72be",
                "fix: ensure xdg-desktop-portal starts after gnome-keyring-daemon (#4539)",
                "Yang Ye",
            ),
            new_commit(
                "b6a0f5c",
                "feat(changelogs): Use SBOMs for standardized package data extraction (#4635)",
                "Dylan M. Taylor",
            ),
            new_commit(
                "7036e3e",
                "Adds ROCm Info utility (#4661)",
                "Italo",
            ),
            new_commit(
                "7eef3d2",
                "feat(extension): Add gradia capture extension (#4651)",
                "Coda",
            ),
        ]
    } else if str_eq(version, "42") {
        vec![
            new_commit(
                "12ab34c",
                "chore: weekly Fedora 42 base refresh",
                "fedora-bootc bot",
            ),
        ]
    } else {
        Vec::new()
    };
    assert(commit_views(list@) =~= example_commits(version@));
    list
}

/// How many versions the page offers.
pub const CHOICES_MAX: usize = 4;

/// The versions that the page offers: the last builds, the newest first; examples
/// where no builds are known.
pub open spec fn choices(list: Seq<ImageVersionView>, selected: Seq<char>) -> Seq<VersionChoiceView> {
    if list.len() > 0 {
        Seq::new(
            if list.len() < CHOICES_MAX {
                list.len()
            } else {
                CHOICES_MAX as nat
            },
            |i: int|
                {
                    let v = list[list.len() - 1 - i];
                    choice(month_day(v.date), v.version, v.version == selected)
                },
        )
    } else {
        seq![
            choice("05-27"@, "43"@, "43"@ == selected),
            choice("05-24"@, "42"@, "42"@ == selected),
            choice("04-15"@, "41"@, "41"@ == selected),
        ]
    }
}

/// All builds have days and times that exist.
pub open spec fn all_dated(list: Seq<ImageVersion>) -> bool {
    forall|i: int|
        0 <= i < list.len() ==> (#[trigger] list[i]).date.wf() && list[i].created.wf()
}

/// The versions that the page offers.
pub fn version_choices(list: &Vec<ImageVersion>, selected: &str) -> (res: Vec<VersionChoice>)
    requires
        all_dated(list@),
    ensures
        choice_views(res@) == choices(version_views(list@), selected@),
{
    let ghost all = version_views(list@);
    let ghost want = choices(all, selected@);
    let mut out: Vec<VersionChoice> = Vec::new();
    if list.len() > 0 {
        let total: usize = list.len();
        let count: usize = if total < CHOICES_MAX {
            total
        } else {
            CHOICES_MAX
        };
        let mut i: usize = 0;
        while i < count
            invariant
                i <= count <= total,
                total == list@.len(),
                count == if total < CHOICES_MAX {
                    total
                } else {
                    CHOICES_MAX
                },
                total > 0,
                all == version_views(list@),
                want == choices(all, selected@),
                all_dated(list@),
                choice_views(out@) == want.take(i as int),
            decreases count - i,
        {
            let ghost before = out@;
            let v = &list[total - 1 - i];
            out.push(
                new_choice(
                    v.date.month_day().as_str(),
                    v.version.as_str(),
                    str_eq(v.version.as_str(), selected),
                ),
            );
            proof {
                assert(all[total - 1 - i] == v@);
                assert(out@.last()@ == want[i as int]);
                assert(choice_views(out@) =~= choice_views(before).push(want[i as int]));
                assert(want.take(i + 1) =~= want.take(i as int).push(want[i as int]));
            }
            i = i + 1;
        }
        assert(want.take(count as int) =~= want);
    } else {
        out.push(new_choice("05-27", "43", str_eq("43", selected)));
        out.push(new_choice("05-24", "42", str_eq("42", selected)));
        out.push(new_choice("04-15", "41", str_eq("41", selected)));
        assert(choice_views(out@) =~= want);
    }
    out
}

/// The place of the first build of a version; the length of the list where there is
/// none.
pub open spec fn build_place(list: Seq<ImageVersionView>, version: Seq<char>) -> int
    decreases list.len(),
{
    if list.len() == 0 {
        0
    } else if list[0].version == version {
        0
    } else {
        1 + build_place(list.drop_first(), version)
    }
}

/// The first build of a version, where there is one.
pub open spec fn build_of(
    list: Seq<ImageVersionView>,
    version: Seq<char>,
) -> Option<ImageVersionView> {
    let i = build_place(list, version);
    if i < list.len() {
        Some(list[i])
    } else {
        None
    }
}

fn find_build<'a>(list: &'a Vec<ImageVersion>, version: &str) -> (res: Option<&'a ImageVersion>)
    ensures
        match res {
            Some(v) => build_of(version_views(list@), version@) == Some(v@) && list@.contains(*v),
            None => build_of(version_views(list@), version@) is None,
        },
{
    let ghost all = version_views(list@);
    let mut i: usize = 0;
    assert(all.skip(0) =~= all);
    while i < list.len()
        invariant
            i <= list@.len(),
            all == version_views(list@),
            build_place(all, version@) == i + build_place(all.skip(i as int), version@),
        decreases list@.len() - i,
    {
        proof {
            assert(all.skip(i as int)[0] == list@[i as int]@);
            assert(all.skip(i as int).drop_first() =~= all.skip(i + 1));
        }
        if str_eq(list[i].version.as_str(), version) {
            assert(list@[i as int] == list[i as int]);
            return Some(&list[i]);
        }
        i = i + 1;
    }
    None
}

/// A known build is an update where it is not the booted one; an example is one where
/// it is the newest. Either way an update must be available and no reboot pending.
pub open spec fn is_update(
    build: Option<ImageVersionView>,
    version: Seq<char>,
    booted_tag: Seq<char>,
    reboot_pending: bool,
    preflight: PreflightStatus,
) -> bool {
    &&& !reboot_pending
    &&& preflight == PreflightStatus::UpdateAvailable
    &&& match build {
        Some(v) => v.version != booted_tag,
        None => version == "43"@,
    }
}

/// What the version is to the running system.
pub open spec fn badge_of(
    build: Option<ImageVersionView>,
    version: Seq<char>,
    booted_tag: Seq<char>,
    reboot_pending: bool,
    preflight: PreflightStatus,
) -> Badge {
    if is_update(build, version, booted_tag, reboot_pending, preflight) {
        Badge::Update
    } else {
        let booted = match build {
            Some(v) => v.version == booted_tag,
            None => version == "42"@ && !reboot_pending,
        };
        if booted {
            Badge::Booted
        } else {
            Badge::Plain
        }
    }
}

/// The build and its day.
pub open spec fn meta_of(build: Option<ImageVersionView>, version: Seq<char>) -> Seq<char> {
    match build {
        Some(v) => v.version + "  ·  "@ + long_date(v.created.date),
        None => example_build(version) + "  ·  "@ + example_date(version),
    }
}

/// The beginning of a commit: its first seven bytes, or all of it where it cannot be
/// cut there.
pub open spec fn short_commit(sha: Seq<char>) -> Seq<char> {
    if cuttable(sha, 7) {
        byte_cut(sha, 7)
    } else {
        sha
    }
}

/// The beginning of a commit.
pub fn shorten_commit(sha: &str) -> (res: &str)
    ensures
        res@ == short_commit(sha@),
{
    match byte_prefix(sha, 7) {
        Some(head) => head,
        None => sha,
    }
}

/// What the version is about.
pub open spec fn summary_of(
    build: Option<ImageVersionView>,
    version: Seq<char>,
    booted_tag: Seq<char>,
) -> Seq<char> {
    match build {
        Some(v) => if v.version == booted_tag {
            "Currently booted. Kernel "@ + v.kernel + " · stable point release."@
        } else {
            "Image build. Kernel "@ + v.kernel + " · git commit "@ + short_commit(v.revision) + "."@
        },
        None => example_summary(version),
    }
}

/// The parts of the version.
pub open spec fn stack_of(build: Option<ImageVersionView>, version: Seq<char>) -> Seq<StackItemView> {
    match build {
        Some(v) => seq![
            item("Kernel"@, v.kernel, false),
            item("bootc"@, "1.4.2"@, false),
            item("systemd"@, "259.5"@, false),
            item("flatpak"@, "1.17.7"@, false),
        ],
        None => example_stack(version),
    }
}

/// The upgraded packages, then the added ones; examples where no diff is known.
pub open spec fn upgrades_of(diff: Option<SbomDiffView>, version: Seq<char>) -> Seq<
    PackageChangeView,
> {
    match diff {
        Some(d) => d.upgraded.map_values(
            |p: PackageDiffView| change(p.name, p.old_version, p.new_version),
        ) + d.added.map_values(|p: PackageDiffView| change(p.name, "(added)"@, p.new_version)),
        None => example_upgrades(version),
    }
}

/// The removed packages; examples where no diff is known.
pub open spec fn removals_of(diff: Option<SbomDiffView>, version: Seq<char>) -> Seq<Seq<char>> {
    match diff {
        Some(d) => d.removed,
        None => example_removals(version),
    }
}

/// The commits; examples where none are known.
pub open spec fn commits_of(commits: Seq<CommitView>, version: Seq<char>) -> Seq<CommitView> {
    if commits.len() > 0 {
        commits
    } else {
        example_commits(version)
    }
}

/// The heading of a list, unless the list is empty.
pub open spec fn heading(title: Seq<char>, count: nat) -> Option<Seq<char>> {
    if count > 0 {
        Some(title + decimal(count))
    } else {
        None
    }
}

/// What the page of a version shows.
#[derive(Debug, Clone)]
pub struct ChangelogPage {
    pub choices: Vec<VersionChoice>,
    pub reference: String,
    pub badge: Badge,
    pub meta: String,
    pub summary: String,
    pub stack: Vec<StackItem>,
    pub upgrades_title: Option<String>,
    pub upgrades: Vec<PackageChange>,
    pub removals_title: Option<String>,
    pub removals: Vec<String>,
    pub commits: Vec<Commit>,
    pub installable: bool,
}

/// What a page holds.
#[verifier::ext_equal]
pub struct ChangelogPageView {
    pub choices: Seq<VersionChoiceView>,
    pub reference: Seq<char>,
    pub badge: Badge,
    pub meta: Seq<char>,
    pub summary: Seq<char>,
    pub stack: Seq<StackItemView>,
    pub upgrades_title: Option<Seq<char>>,
    pub upgrades: Seq<PackageChangeView>,
    pub removals_title: Option<Seq<char>>,
    pub removals: Seq<Seq<char>>,
    pub commits: Seq<CommitView>,
    pub installable: bool,
}

impl View for ChangelogPage {
    type V = ChangelogPageView;

    open spec fn view(&self) -> ChangelogPageView {
        ChangelogPageView {
            choices: choice_views(self.choices@),
            reference: self.reference@,
            badge: self.badge,
            meta: self.meta@,
            summary: self.summary@,
            stack: stack_views(self.stack@),
            upgrades_title: optional_view(self.upgrades_title),
            upgrades: change_views(self.upgrades@),
            removals_title: optional_view(self.removals_title),
            removals: owned_views(self.removals@),
            commits: commit_views(self.commits@),
            installable: self.installable,
        }
    }
}

/// What the page of a version shows.
pub open spec fn page_of(
    version: Seq<char>,
    registry_uri: Seq<char>,
    versions: Seq<ImageVersionView>,
    commits: Seq<CommitView>,
    diff: Option<SbomDiffView>,
    booted_tag: Seq<char>,
    reboot_pending: bool,
    preflight: PreflightStatus,
) -> ChangelogPageView {
    let build = build_of(versions, version);
    let upgrades = upgrades_of(diff, version);
    let removals = removals_of(diff, version);
    ChangelogPageView {
        choices: choices(versions, version),
        reference: registry_uri + ":"@ + version,
        badge: badge_of(build, version, booted_tag, reboot_pending, preflight),
        meta: meta_of(build, version),
        summary: summary_of(build, version, booted_tag),
        stack: stack_of(build, version),
        upgrades_title: heading("Updated  ·  "@, upgrades.len()),
        upgrades,
        removals_title: heading("Removed  ·  "@, removals.len()),
        removals,
        commits: commits_of(commits, version),
        installable: is_update(build, version, booted_tag, reboot_pending, preflight),
    }
}

/// The view of a diff that may be missing.
pub open spec fn optional_diff(d: Option<SbomDiffResult>) -> Option<SbomDiffView> {
    match d {
        Some(diff) => Some(diff@),
        None => None,
    }
}

fn list_heading(title: &str, count: usize) -> (res: Option<String>)
    ensures
        optional_view(res) == heading(title@, count as nat),
{
    if count > 0 {
        let mut text: String = title.to_owned();
        text.append(u64_text(count as u64).as_str());
        Some(text)
    } else {
        None
    }
}

/// The packages of a diff that change or appear.
fn list_upgrades(diff: &Option<SbomDiffResult>, version: &str) -> (res: Vec<PackageChange>)
    ensures
        change_views(res@) == upgrades_of(optional_diff(*diff), version@),
{
    match diff {
        None => new_example_upgrades(version),
        Some(d) => {
            let ghost up = d@.upgraded.map_values(
                |p: PackageDiffView| change(p.name, p.old_version, p.new_version),
            );
            let ghost new = d@.added.map_values(
                |p: PackageDiffView| change(p.name, "(added)"@, p.new_version),
            );
            let mut out: Vec<PackageChange> = Vec::new();
            let mut i: usize = 0;
            while i < d.upgraded.len()
                invariant
                    i <= d.upgraded@.len(),
                    up.len() == d.upgraded@.len(),
                    forall|k: int|
                        0 <= k < up.len() ==> #[trigger] up[k] == change(
                            d.upgraded@[k].name@,
                            d.upgraded@[k].old_version@,
                            d.upgraded@[k].new_version@,
                        ),
                    change_views(out@) == up.take(i as int),
                decreases d.upgraded@.len() - i,
            {
                let ghost before = out@;
                let p = &d.upgraded[i];
                out.push(
                    new_change(p.name.as_str(), p.old_version.as_str(), p.new_version.as_str()),
                );
                proof {
                    assert(change_views(out@) =~= change_views(before).push(up[i as int]));
                    assert(up.take(i + 1) =~= up.take(i as int).push(up[i as int]));
                }
                i = i + 1;
            }
            assert(up.take(i as int) =~= up);
            let mut j: usize = 0;
            assert(up + new.take(0) =~= up);
            while j < d.added.len()
                invariant
                    j <= d.added@.len(),
                    new.len() == d.added@.len(),
                    forall|k: int|
                        0 <= k < new.len() ==> #[trigger] new[k] == change(
                            d.added@[k].name@,
                            "(added)"@,
                            d.added@[k].new_version@,
                        ),
                    change_views(out@) == up + new.take(j as int),
                decreases d.added@.len() - j,
            {
                let ghost before = out@;
                let p = &d.added[j];
                out.push(new_change(p.name.as_str(), "(added)", p.new_version.as_str()));
                proof {
                    assert(change_views(out@) =~= change_views(before).push(new[j as int]));
                    assert(up + new.take(j + 1) =~= (up + new.take(j as int)).push(new[j as int]));
                }
                j = j + 1;
            }
            assert(new.take(j as int) =~= new);
            out
        },
    }
}

/// The packages of a diff that disappear.
fn list_removals(diff: &Option<SbomDiffResult>, version: &str) -> (res: Vec<String>)
    ensures
        owned_views(res@) == removals_of(optional_diff(*diff), version@),
{
    match diff {
        None => new_example_removals(version),
        Some(d) => {
            let mut out: Vec<String> = Vec::new();
            let mut i: usize = 0;
            while i < d.removed.len()
                invariant
                    i <= d.removed@.len(),
                    owned_views(out@) == owned_views(d.removed@).take(i as int),
                decreases d.removed@.len() - i,
            {
                let ghost before = out@;
                out.push(d.removed[i].as_str().to_owned());
                proof {
                    let all = owned_views(d.removed@);
                    assert(owned_views(out@) =~= owned_views(before).push(all[i as int]));
                    assert(all.take(i + 1) =~= all.take(i as int).push(all[i as int]));
                }
                i = i + 1;
            }
            assert(owned_views(d.removed@).take(i as int) =~= owned_views(d.removed@));
            out
        },
    }
}

/// The commits to show.
fn list_commits(commits: &Vec<Commit>, version: &str) -> (res: Vec<Commit>)
    ensures
        commit_views(res@) == commits_of(commit_views(commits@), version@),
{
    if commits.len() == 0 {
        return new_example_commits(version);
    }
    let mut out: Vec<Commit> = Vec::new();
    let mut i: usize = 0;
    while i < commits.len()
        invariant
            i <= commits@.len(),
            commit_views(out@) == commit_views(commits@).take(i as int),
        decreases commits@.len() - i,
    {
        let ghost before = out@;
        let c = &commits[i];
        out.push(new_commit(c.sha.as_str(), c.message.as_str(), c.author.as_str()));
        proof {
            let all = commit_views(commits@);
            assert(all[i as int] == commits@[i as int]@);
            assert(commit_views(out@) =~= commit_views(before).push(all[i as int]));
            assert(all.take(i + 1) =~= all.take(i as int).push(all[i as int]));
        }
        i = i + 1;
    }
    assert(commit_views(commits@).take(i as int) =~= commit_views(commits@));
    out
}

fn summary_text(build: Option<&ImageVersion>, version: &str, booted_tag: &str) -> (res: String)
    ensures
        res@ == summary_of(
            match build {
                Some(v) => Some(v@),
                None => None,
            },
            version@,
            booted_tag@,
        ),
{
    match build {
        Some(v) => if str_eq(v.version.as_str(), booted_tag) {
            let mut text: String = "Currently booted. Kernel ".to_owned();
            text.append(v.kernel.as_str());
            text.append(" · stable point release.");
            text
        } else {
            let mut text: String = "Image build. Kernel ".to_owned();
            text.append(v.kernel.as_str());
            text.append(" · git commit ");
            text.append(shorten_commit(v.revision.as_str()));
            text.append(".");
            text
        },
        None => example_summary_text(version).to_owned(),
    }
}

fn meta_text(build: Option<&ImageVersion>, version: &str) -> (res: String)
    requires
        build matches Some(v) ==> v.created.wf(),
    ensures
        res@ == meta_of(
            match build {
                Some(v) => Some(v@),
                None => None,
            },
            version@,
        ),
{
    match build {
        Some(v) => {
            let mut text: String = v.version.as_str().to_owned();
            text.append("  ·  ");
            text.append(v.created.long_date().as_str());
            text
        },
        None => {
            let mut text: String = example_build_text(version).to_owned();
            text.append("  ·  ");
            text.append(example_date_text(version));
            text
        },
    }
}

fn list_stack(build: Option<&ImageVersion>, version: &str) -> (res: Vec<StackItem>)
    ensures
        stack_views(res@) == stack_of(
            match build {
                Some(v) => Some(v@),
                None => None,
            },
            version@,
        ),
{
    match build {
        Some(v) => {
            let list: Vec<StackItem> = vec![
                new_item("Kernel", v.kernel.as_str(), false),
                new_item("bootc", "1.4.2", false),
                new_item("systemd", "259.5", false),
                new_item("flatpak", "1.17.7", false),
            ];
            assert(stack_views(list@) =~= stack_of(Some(v@), version@));
            list
        },
        None => new_example_stack(version),
    }
}

/// What the page of a version shows, given the builds, commits and packages that are
/// known and the tag that is booted.
pub fn changelog_page(
    version: &str,
    registry_uri: &str,
    versions: &Vec<ImageVersion>,
    commits: &Vec<Commit>,
    diff: &Option<SbomDiffResult>,
    booted_tag: &str,
    reboot_pending: bool,
    preflight: PreflightStatus,
) -> (res: ChangelogPage)
    requires
        all_dated(versions@),
    ensures
        res@ == page_of(
            version@,
            registry_uri@,
            version_views(versions@),
            commit_views(commits@),
            optional_diff(*diff),
            booted_tag@,
            reboot_pending,
            preflight,
        ),
{
    let build = find_build(versions, version);
    let mut reference: String = registry_uri.to_owned();
    reference.append(":");
    reference.append(version);
    let eligible: bool = !reboot_pending && preflight == PreflightStatus::UpdateAvailable;
    let installable: bool = eligible && match build {
        Some(v) => !str_eq(v.version.as_str(), booted_tag),
        None => str_eq(version, "43"),
    };
    let booted: bool = match build {
        Some(v) => str_eq(v.version.as_str(), booted_tag),
        None => str_eq(version, "42") && !reboot_pending,
    };
    let badge: Badge = if installable {
        Badge::Update
    } else if booted {
        Badge::Booted
    } else {
        Badge::Plain
    };
    let upgrades = list_upgrades(diff, version);
    let removals = list_removals(diff, version);
    assert(change_views(upgrades@).len() == upgrades@.len());
    assert(owned_views(removals@).len() == removals@.len());
    ChangelogPage {
        choices: version_choices(versions, version),
        reference,
        badge,
        meta: meta_text(build, version),
        summary: summary_text(build, version, booted_tag),
        stack: list_stack(build, version),
        upgrades_title: list_heading("Updated  ·  ", upgrades.len()),
        upgrades,
        removals_title: list_heading("Removed  ·  ", removals.len()),
        removals,
        commits: list_commits(commits, version),
        installable,
    }
}

/// A version can be installed exactly where it is marked as an update. It is never
/// offered while a reboot is pending, unless an update is available, or where it is
/// the booted build.
pub proof fn law_install_offered(
    version: Seq<char>,
    registry_uri: Seq<char>,
    versions: Seq<ImageVersionView>,
    commits: Seq<CommitView>,
    diff: Option<SbomDiffView>,
    booted_tag: Seq<char>,
    reboot_pending: bool,
    preflight: PreflightStatus,
)
    ensures
        ({
            let page = page_of(
                version,
                registry_uri,
                versions,
                commits,
                diff,
                booted_tag,
                reboot_pending,
                preflight,
            );
            &&& page.installable <==> page.badge == Badge::Update
            &&& reboot_pending ==> !page.installable
            &&& preflight != PreflightStatus::UpdateAvailable ==> !page.installable
            &&& build_of(versions, version) is Some && version == booted_tag ==> !page.installable
                && page.badge == Badge::Booted
        }),
{
    lemma_build_place(versions, version);
}

proof fn lemma_build_place(list: Seq<ImageVersionView>, version: Seq<char>)
    ensures
        0 <= build_place(list, version) <= list.len(),
        build_place(list, version) < list.len() ==> list[build_place(list, version)].version
            == version,
    decreases list.len(),
{
    if list.len() > 0 && list[0].version != version {
        lemma_build_place(list.drop_first(), version);
    }
}

/// The page offers at most as many versions as fit, newest first, and marks those
/// that are selected.
pub proof fn law_choices(list: Seq<ImageVersionView>, selected: Seq<char>, i: int)
    requires
        0 <= i < choices(list, selected).len(),
    ensures
        choices(list, selected).len() <= CHOICES_MAX,
        choices(list, selected)[i].selected <==> choices(list, selected)[i].version == selected,
        list.len() > 0 ==> choices(list, selected)[i].version == list[list.len() - 1 - i].version,
        list.len() > 0 ==> choices(list, selected)[i].label == month_day(
            list[list.len() - 1 - i].date,
        ),
        0 < list.len() <= 4 ==> choices(list, selected).len() == list.len(),
        list.len() > 4 ==> choices(list, selected).len() == 4,
{
}

/// Every package of the diff is listed: first the upgraded ones, in their order, each from
/// the version it has to the version it gets; then the added ones, each as added and with
/// the version it gets. The removed ones are listed as they are.
pub proof fn law_diff_listed(diff: SbomDiffView, version: Seq<char>)
    ensures
        upgrades_of(Some(diff), version).len() == diff.upgraded.len() + diff.added.len(),
        forall|i: int|
            0 <= i < diff.upgraded.len() ==> {
                let shown = #[trigger] upgrades_of(Some(diff), version)[i];
                &&& shown.name == diff.upgraded[i].name
                &&& shown.from == diff.upgraded[i].old_version
                &&& shown.to == diff.upgraded[i].new_version
            },
        forall|j: int|
            0 <= j < diff.added.len() ==> {
                let shown = upgrades_of(Some(diff), version)[diff.upgraded.len() + j];
                &&& shown.name == (#[trigger] diff.added[j]).name
                &&& shown.from == "(added)"@
                &&& shown.to == diff.added[j].new_version
            },
        removals_of(Some(diff), version) == diff.removed,
{
}

/// The page of a version lists the packages of the diff, and its headings count them.
pub proof fn law_page_lists_diff(
    version: Seq<char>,
    registry_uri: Seq<char>,
    versions: Seq<ImageVersionView>,
    commits: Seq<CommitView>,
    diff: SbomDiffView,
    booted_tag: Seq<char>,
    reboot_pending: bool,
    preflight: PreflightStatus,
)
    ensures
        ({
            let page = page_of(
                version,
                registry_uri,
                versions,
                commits,
                Some(diff),
                booted_tag,
                reboot_pending,
                preflight,
            );
            let n = diff.upgraded.len() + diff.added.len();
            &&& page.upgrades.len() == n
            &&& forall|i: int|
                0 <= i < diff.upgraded.len() ==> {
                    let shown = #[trigger] page.upgrades[i];
                    &&& shown.name == diff.upgraded[i].name
                    &&& shown.from == diff.upgraded[i].old_version
                    &&& shown.to == diff.upgraded[i].new_version
                }
            &&& forall|j: int|
                0 <= j < diff.added.len() ==> {
                    let shown = page.upgrades[diff.upgraded.len() + j];
                    &&& shown.name == (#[trigger] diff.added[j]).name
                    &&& shown.from == "(added)"@
                    &&& shown.to == diff.added[j].new_version
                }
            &&& page.removals == diff.removed
            &&& page.upgrades_title == if n == 0 {
                None
            } else {
                Some("Updated  ·  "@ + decimal(n))
            }
            &&& page.removals_title == if diff.removed.len() == 0 {
                None
            } else {
                Some("Removed  ·  "@ + decimal(diff.removed.len()))
            }
        }),
{
    law_diff_listed(diff, version);
}

/// The page names the address and the version; it shows all commits that are known, in
/// their order.
pub proof fn law_page_source(
    version: Seq<char>,
    registry_uri: Seq<char>,
    versions: Seq<ImageVersionView>,
    commits: Seq<CommitView>,
    diff: Option<SbomDiffView>,
    booted_tag: Seq<char>,
    reboot_pending: bool,
    preflight: PreflightStatus,
)
    ensures
        ({
            let page = page_of(
                version,
                registry_uri,
                versions,
                commits,
                diff,
                booted_tag,
                reboot_pending,
                preflight,
            );
            &&& page.reference == registry_uri + ":"@ + version
            &&& commits.len() > 0 ==> page.commits == commits
            &&& versions.len() > 0 ==> page.choices.len() == if versions.len() < 4 {
                versions.len()
            } else {
                4
            }
            &&& forall|k: int|
                0 <= k < page.choices.len() && versions.len() > 0 ==> {
                    let shown = #[trigger] page.choices[k];
                    &&& shown.version == versions[versions.len() - 1 - k].version
                    &&& shown.label == month_day(versions[versions.len() - 1 - k].date)
                    &&& shown.selected == (shown.version == version)
                }
        }),
{
}

/// The page of a known build shows its version, day and kernel. The booted build is
/// marked as booted; another one can be installed exactly where an update is available
/// and no reboot is pending.
pub proof fn law_page_of_build(
    version: Seq<char>,
    registry_uri: Seq<char>,
    versions: Seq<ImageVersionView>,
    commits: Seq<CommitView>,
    diff: Option<SbomDiffView>,
    booted_tag: Seq<char>,
    reboot_pending: bool,
    preflight: PreflightStatus,
    i: int,
)
    requires
        0 <= i < versions.len(),
        versions[i].version == version,
        forall|j: int| 0 <= j < i ==> (#[trigger] versions[j]).version != version,
    ensures
        ({
            let page = page_of(
                version,
                registry_uri,
                versions,
                commits,
                diff,
                booted_tag,
                reboot_pending,
                preflight,
            );
            let build = versions[i];
            &&& page.meta == version + "  ·  "@ + long_date(build.created.date)
            &&& page.stack.len() > 0 && page.stack[0].name == "Kernel"@ && page.stack[0].version
                == build.kernel
            &&& forall|k: int|
                0 <= k < page.stack.len() ==> !(#[trigger] page.stack[k]).bumped
            &&& version == booted_tag ==> page.badge == Badge::Booted && !page.installable
                && page.summary == "Currently booted. Kernel "@ + build.kernel
                + " · stable point release."@
            &&& version != booted_tag ==> page.summary == "Image build. Kernel "@ + build.kernel
                + " · git commit "@ + short_commit(build.revision) + "."@
            &&& version != booted_tag && !reboot_pending && preflight
                == PreflightStatus::UpdateAvailable ==> page.badge == Badge::Update
                && page.installable
            &&& version != booted_tag && (reboot_pending || preflight
                != PreflightStatus::UpdateAvailable) ==> page.badge == Badge::Plain
                && !page.installable
        }),
{
    lemma_build_place_first(versions, version, i);
}

proof fn lemma_build_place_first(list: Seq<ImageVersionView>, version: Seq<char>, i: int)
    requires
        0 <= i < list.len(),
        list[i].version == version,
        forall|j: int| 0 <= j < i ==> (#[trigger] list[j]).version != version,
    ensures
        build_place(list, version) == i,
    decreases list.len(),
{
    if i > 0 {
        let rest = list.drop_first();
        assert(list[0].version != version);
        assert forall|j: int| 0 <= j < i - 1 implies (#[trigger] rest[j]).version != version by {
            assert(rest[j] == list[j + 1]);
        }
        lemma_build_place_first(rest, version, i - 1);
    }
}

/// Of the examples, shown where no build of the version is known, only the newest can be
/// installed, where an update is available and no reboot is pending; the one before it
/// counts as booted until a reboot is pending.
pub proof fn law_page_of_example(
    version: Seq<char>,
    registry_uri: Seq<char>,
    versions: Seq<ImageVersionView>,
    commits: Seq<CommitView>,
    diff: Option<SbomDiffView>,
    booted_tag: Seq<char>,
    reboot_pending: bool,
    preflight: PreflightStatus,
)
    requires
        forall|j: int| 0 <= j < versions.len() ==> (#[trigger] versions[j]).version != version,
    ensures
        ({
            let page = page_of(
                version,
                registry_uri,
                versions,
                commits,
                diff,
                booted_tag,
                reboot_pending,
                preflight,
            );
            &&& page.installable <==> version == "43"@ && !reboot_pending && preflight
                == PreflightStatus::UpdateAvailable
            &&& page.badge == Badge::Update <==> page.installable
            &&& page.badge == Badge::Booted <==> version == "42"@ && !reboot_pending
            &&& version != "41"@ && version != "42"@ && version != "43"@ ==> page.meta
                == "  ·  "@ && page.summary.len() == 0 && page.stack.len() == 0
        }),
{
    reveal_strlit("43");
    reveal_strlit("42");
    assert("43"@[1] != "42"@[1]);
    reveal_strlit("");
    lemma_build_place(versions, version);
    if build_place(versions, version) < versions.len() {
        assert(versions[build_place(versions, version)].version != version);
    }
    assert(""@ + "  ·  "@ + ""@ =~= "  ·  "@);
}

/// A hash in ASCII is shown by its first seven characters, a shorter one whole.
pub proof fn law_short_commit(sha: Seq<char>)
    requires
        is_ascii_chars(sha),
    ensures
        sha.len() >= 7 ==> short_commit(sha) == sha.take(7),
        sha.len() < 7 ==> short_commit(sha) == sha,
{
    if sha.len() >= 7 {
        law_byte_cut_ascii(sha, 7);
    } else {
        is_ascii_chars_encode_utf8(sha);
    }
}

/// Commits are taken in their order, each with the beginning of its hash, its message
/// and its author.
pub proof fn law_commits_taken(list: Seq<CommitView>, i: int)
    requires
        0 <= i < list.len(),
        is_ascii_chars(list[i].sha),
    ensures
        with_short_hashes(list).len() == list.len(),
        with_short_hashes(list)[i].message == list[i].message,
        with_short_hashes(list)[i].author == list[i].author,
        list[i].sha.len() >= 7 ==> with_short_hashes(list)[i].sha == list[i].sha.take(7),
        list[i].sha.len() < 7 ==> with_short_hashes(list)[i].sha == list[i].sha,
{
    law_short_commit(list[i].sha);
}

/// A new version is marked with an arrow, another one is shown as it is.
pub proof fn law_shown_version(part: StackItemView)
    ensures
        part.bumped ==> shown_version(part) == part.version + " ↑"@,
        !part.bumped ==> shown_version(part) == part.version,
{
}

/// The commits with the beginnings of their hashes.
pub open spec fn with_short_hashes(list: Seq<CommitView>) -> Seq<CommitView> {
    list.map_values(|c: CommitView| commit(short_commit(c.sha), c.message, c.author))
}

/// The commits as the page takes them: only the beginning of each hash is kept.
pub fn commits_from(list: Vec<Commit>) -> (res: Vec<Commit>)
    ensures
        commit_views(res@) == with_short_hashes(commit_views(list@)),
{
    let ghost want = with_short_hashes(commit_views(list@));
    let ghost all = list@;
    let mut out: Vec<Commit> = Vec::new();
    for c in it: list.into_iter()
        invariant
            it.seq() == all,
            want == with_short_hashes(commit_views(all)),
            commit_views(out@) == want.take(it.index() as int),
    {
        let ghost before = out@;
        let sha: String = shorten_commit(c.sha.as_str()).to_owned();
        out.push(Commit { sha, message: c.message, author: c.author });
        proof {
            let i = it.index() as int;
            assert(commit_views(all)[i] == c@);
            assert(out@.last()@ == want[i]);
            assert(commit_views(out@) =~= commit_views(before).push(want[i]));
            assert(want.take(i + 1) =~= want.take(i).push(want[i]));
        }
    }
    assert(want.take(want.len() as int) =~= want);
    out
}

/// Where no builds are known, the page offers the examples, the newest first. The label of
/// each, its build and its day all stand for one day.
pub proof fn law_example_days(selected: Seq<char>)
    ensures
        ({
            let list = choices(Seq::empty(), selected);
            let days = seq![(5u32, 27u32), (5u32, 24u32), (4u32, 15u32)];
            &&& list.len() == 3
            &&& list[0].version == "43"@ && list[1].version == "42"@ && list[2].version == "41"@
            &&& forall|i: int|
                0 <= i < 3 ==> {
                    let d = CalendarDate { year: 2026, month: days[i].0, day: days[i].1 };
                    &&& (#[trigger] list[i]).label == month_day(d)
                    &&& example_build(list[i].version) == "stable-"@ + compact_date(d)
                    &&& example_date(list[i].version) == short_date(d) + ", "@ + "2026"@
                }
        }),
{
    reveal_strlit("43");
    reveal_strlit("42");
    reveal_strlit("41");
    assert("43"@[1] == '3' && "42"@[1] == '2' && "41"@[1] == '1');
    reveal_strlit("05-27");
    reveal_strlit("05-24");
    reveal_strlit("04-15");
    reveal_strlit("stable-");
    reveal_strlit("stable-20260527");
    reveal_strlit("stable-20260524");
    reveal_strlit("stable-20260415");
    reveal_strlit("May 27, 2026");
    reveal_strlit("May 24, 2026");
    reveal_strlit("Apr 15, 2026");
    reveal_strlit("May");
    reveal_strlit("April");
    reveal_strlit(", ");
    reveal_strlit("2026");
    lemma_two_digits(5);
    lemma_two_digits(4);
    lemma_two_digits(27);
    lemma_two_digits(24);
    lemma_two_digits(15);
    lemma_four_digits(2026);
    reveal_with_fuel(decimal, 3);
    let a = CalendarDate { year: 2026, month: 5, day: 27 };
    let b = CalendarDate { year: 2026, month: 5, day: 24 };
    let c = CalendarDate { year: 2026, month: 4, day: 15 };
    assert(month_day(a) =~= "05-27"@);
    assert(month_day(b) =~= "05-24"@);
    assert(month_day(c) =~= "04-15"@);
    assert("stable-"@ + compact_date(a) =~= "stable-20260527"@);
    assert("stable-"@ + compact_date(b) =~= "stable-20260524"@);
    assert("stable-"@ + compact_date(c) =~= "stable-20260415"@);
    assert(short_date(a) + ", "@ + "2026"@ =~= "May 27, 2026"@);
    assert(short_date(b) + ", "@ + "2026"@ =~= "May 24, 2026"@);
    assert(short_date(c) + ", "@ + "2026"@ =~= "Apr 15, 2026"@);
}

/// What the examples hold; other versions have no example.
pub proof fn law_example_contents(version: Seq<char>)
    ensures
        version == "43"@ ==> example_summary(version) == "Fedora 43 base bump · new kernel · GNOME 50.1"@,
        version == "42"@ ==> example_summary(version)
            == "Currently booted. Kernel 6.13.7 · stable point release."@,
        version == "41"@ ==> example_summary(version) == "Final Fedora 41 maintenance build."@,
        version != "43"@ && version != "42"@ && version != "41"@ ==> example_summary(version).len() == 0,
        version == "43"@ ==> example_stack(version) == seq![
            item("Kernel"@, "6.14.1-300.fc43"@, true),
            item("GNOME"@, "50.1"@, true),
            item("Mesa"@, "26.0.7"@, false),
            item("Podman"@, "5.8.2"@, true),
            item("Nvidia"@, "595.71.05-1"@, false),
            item("bootc"@, "1.4.2"@, false),
            item("systemd"@, "259.5"@, false),
            item("pipewire"@, "1.6.5"@, true),
            item("flatpak"@, "1.17.7"@, false),
        ],
        version == "42"@ ==> example_stack(version) == seq![
            item("Kernel"@, "6.13.7-300.fc42"@, false),
            item("GNOME"@, "49.4"@, false),
            item("Mesa"@, "26.0.6"@, false),
            item("Podman"@, "5.8.0"@, false),
            item("Nvidia"@, "595.71.05-1"@, false),
            item("bootc"@, "1.4.2"@, false),
            item("systemd"@, "259.5"@, false),
            item("pipewire"@, "1.6.5"@, false),
            item("flatpak"@, "1.17.7"@, false),
        ],
        version == "41"@ ==> example_stack(version) == seq![
            item("Kernel"@, "6.12.9-100.fc41"@, false),
            item("GNOME"@, "48.2"@, false),
            item("Mesa"@, "25.3.4"@, false),
            item("Podman"@, "5.6.0"@, false),
        ],
        version != "43"@ && version != "42"@ && version != "41"@ ==> example_stack(version).len() == 0,
        version == "43"@ ==> example_upgrades(version) == seq![
            change("Docker"@, "29.5.1-1"@, "29.5.2-1"@),
            change("Mesa"@, "26.0.6-4"@, "26.0.7-4"@),
            change("amd-gpu-firmware"@, "20260410-1"@, "20260519-1"@),
            change("bind"@, "9.18.48-1"@, "9.18.49-1"@),
            change("pipewire"@, "1.6.5-1"@, "1.6.5-2"@),
            change("tailscale"@, "1.98.2-1"@, "1.98.3-1"@),
            change("vim"@, "9.2.390-1"@, "9.2.506-2"@),
        ],
        version == "42"@ ==> example_upgrades(version) == seq![
            change("kernel"@, "6.13.6"@, "6.13.7-300"@),
            change("firefox"@, "142.0"@, "143.0"@),
            change("gnome-shell"@, "49.3"@, "49.4"@),
        ],
        version == "41"@ ==> example_upgrades(version) == seq![
            change("kernel"@, "6.12.4"@, "6.12.9-100"@),
            change("gnome-shell"@, "48.1"@, "48.2"@),
        ],
        version != "43"@ && version != "42"@ && version != "41"@ ==> example_upgrades(version).len() == 0,
        version == "43"@ ==> example_removals(version) == seq![
            "framework-laptop-kmod-common"@,
            "libde265"@,
            "uvg266"@,
            "vvdec"@,
        ],
        version != "43"@ ==> example_removals(version).len() == 0,
        version == "43"@ ==> example_commits(version) == seq![
            commit(
                "60e72be"@,
                "fix: ensure xdg-desktop-portal starts after gnome-keyring-daemon (#4539)"@,
                "Yang Ye"@,
            ),
            commit(
                "b6a0f5c"@,
                "feat(changelogs): Use SBOMs for standardized package data extraction (#4635)"@,
                "Dylan M. Taylor"@,
            ),
            commit(
                "7036e3e"@,
                "Adds ROCm Info utility (#4661)"@,
                "Italo"@,
            ),
            commit(
                "7eef3d2"@,
                "feat(extension): Add gradia capture extension (#4651)"@,
                "Coda"@,
            ),
        ],
        version == "42"@ ==> example_commits(version) == seq![
            commit(
                "12ab34c"@,
                "chore: weekly Fedora 42 base refresh"@,
                "fedora-bootc bot"@,
            ),
        ],
        version != "43"@ && version != "42"@ ==> example_commits(version).len() == 0,
{
    reveal_strlit("");
    reveal_strlit("43");
    reveal_strlit("42");
    reveal_strlit("41");
    assert("43"@[1] == '3' && "42"@[1] == '2' && "41"@[1] == '1');
}

} // verus!
