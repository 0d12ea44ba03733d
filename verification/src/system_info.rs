//! What the running system tells of itself, and the commands that ask and change it.

use crate::command::{host_command, on_host, CommandLine, CommandView};
use crate::json::{json_at, NodeView};
use crate::number::{decimal, u64_text};
use crate::registry_client::{
    booted_image_of_status, last_value, last_value_of, law_value_needs_line, lemma_quoted_line,
    lemma_reference_parts, lemma_transport, optional_client, quoted_line, status_reference,
    stream_or_tag, without_transport, ClientView, RegistryClient,
};
use crate::service::{
    law_reference_round_trip, law_reference_text, parse_reference, ImageRef, ImageRefView,
};
use crate::tag::{ends_in_day, has_build_number, stem, stem_len};
use crate::text::{
    all_digits, begins_with, contains_text, find_str, is_digit, join, join_from, law_lines,
    law_split_concat, law_split_join, law_trim_quotes, lemma_find_text, lemma_split_nonempty, lines,
    lines_of, optional_view, owned_views, split, split_char, str_eq, strip_prefix, to_chars, trim,
    trim_char, trim_matches, trim_white, views,
};
use vstd::prelude::*;

verus! {

/// The running image as the main view names it.
#[derive(Debug, Clone)]
pub struct BootedImage {
    /// Organisation and image.
    pub title: String,
    /// The address without the tag.
    pub registry_uri: String,
    /// The last part of the stream.
    pub selected_tag: String,
}

/// What a running image holds.
#[verifier::ext_equal]
pub struct BootedImageView {
    pub title: Seq<char>,
    pub registry_uri: Seq<char>,
    pub selected_tag: Seq<char>,
}

impl View for BootedImage {
    type V = BootedImageView;

    open spec fn view(&self) -> BootedImageView {
        BootedImageView {
            title: self.title@,
            registry_uri: self.registry_uri@,
            selected_tag: self.selected_tag@,
        }
    }
}

/// The tag without the day at its end.
pub open spec fn undated(tag: Seq<char>) -> Seq<char> {
    if ends_in_day(tag) {
        stem(tag)
    } else {
        tag
    }
}

/// The tag without the day at its end.
pub fn strip_day(tag: &str) -> (res: String)
    ensures
        res@ == undated(tag@),
{
    let chars = to_chars(tag);
    assert(tag@.take(tag@.len() as int) =~= tag@);
    match stem_len(&chars, chars.len()) {
        Some(k) => {
            assert(tag@.subrange(0, k as int) =~= stem(tag@));
            tag.substring_char(0, k).to_owned()
        },
        None => tag.to_owned(),
    }
}

/// What an image reference says of the running image.
pub open spec fn booted_image_info(image_ref: Seq<char>) -> Option<BootedImageView> {
    match parse_reference(image_ref) {
        Some(r) => Some(
            BootedImageView {
                title: r.org + "/"@ + r.image,
                registry_uri: r.registry + "/"@ + r.org + "/"@ + r.image,
                selected_tag: split(undated(r.tag), '-').last(),
            },
        ),
        None => None,
    }
}

/// The view of a running image that may not be known.
pub open spec fn optional_booted(b: Option<BootedImage>) -> Option<BootedImageView> {
    match b {
        Some(image) => Some(image@),
        None => None,
    }
}

/// What an image reference says of the running image; nothing where it is not one.
pub fn describe_booted_image(image_ref: &str) -> (res: Option<BootedImage>)
    ensures
        optional_booted(res) == booted_image_info(image_ref@),
{
    match ImageRef::parse(image_ref) {
        None => None,
        Some(r) => {
            let mut title: String = r.org.as_str().to_owned();
            title.append("/");
            title.append(r.image.as_str());
            let mut registry_uri: String = r.registry.as_str().to_owned();
            registry_uri.append("/");
            registry_uri.append(r.org.as_str());
            registry_uri.append("/");
            registry_uri.append(r.image.as_str());
            let stream = strip_day(r.tag.as_str());
            let parts = split_char(stream.as_str(), '-');
            proof {
                lemma_split_nonempty(stream@, '-');
                assert(views(parts@).len() == parts@.len());
                assert(views(parts@).last() == parts@.last()@);
            }
            let selected_tag: String = parts[parts.len() - 1].to_owned();
            Some(BootedImage { title, registry_uri, selected_tag })
        },
    }
}

/// What a status says of the running image.
pub open spec fn status_image_info(document: Seq<u8>) -> Option<BootedImageView> {
    match status_reference(document) {
        Some(r) => booted_image_info(r),
        None => None,
    }
}

/// What `bootc status --json` says of the running image.
pub fn detect_bootc_image_info(document: &[u8]) -> (res: Option<BootedImage>)
    ensures
        optional_booted(res) == status_image_info(document@),
{
    match booted_image_of_status(document) {
        Some(r) => describe_booted_image(r.as_str()),
        None => None,
    }
}

/// The tag that is booted, where the running image may not be known.
pub open spec fn booted_tag(booted: Option<BootedImageView>) -> Seq<char> {
    match booted {
        Some(b) => b.selected_tag,
        None => "latest"@,
    }
}

/// The tag that is booted.
pub fn read_selected_tag(booted: &Option<BootedImage>) -> (res: String)
    ensures
        res@ == booted_tag(optional_booted(*booted)),
{
    match booted {
        Some(b) => b.selected_tag.as_str().to_owned(),
        None => "latest".to_owned(),
    }
}

/// The name of the image in a release file, with its variant where it has one.
pub open spec fn release_image_info(content: Seq<char>) -> Option<Seq<char>> {
    match last_value(lines_of(content), "IMAGE_ID="@) {
        Some(id) => match last_value(lines_of(content), "VARIANT_ID="@) {
            Some(variant) => Some(id + "  ·  "@ + variant),
            None => Some(id),
        },
        None => None,
    }
}

/// The name of the image in a release file.
pub fn image_info_of_release(content: &str) -> (res: Option<String>)
    ensures
        optional_view(res) == release_image_info(content@),
{
    let all = lines(content);
    match last_value_of(&all, "IMAGE_ID=") {
        Some(id) => {
            let mut text: String = id.to_owned();
            if let Some(variant) = last_value_of(&all, "VARIANT_ID=") {
                text.append("  ·  ");
                text.append(variant);
            }
            Some(text)
        },
        None => None,
    }
}

/// The first name of an image in release files, of which some cannot be read.
pub open spec fn first_image_info(files: Seq<Option<String>>) -> Option<Seq<char>>
    decreases files.len(),
{
    if files.len() == 0 {
        None
    } else {
        let found = match files[0] {
            Some(content) => release_image_info(content@),
            None => None,
        };
        if found is Some {
            found
        } else {
            first_image_info(files.drop_first())
        }
    }
}

/// The name of the running image.
pub open spec fn shown_image(booted: Option<BootedImageView>, files: Seq<Option<String>>) -> Option<
    Seq<char>,
> {
    match booted {
        Some(b) => Some(b.title),
        None => first_image_info(files),
    }
}

/// The name of the running image: what `bootc` says, else what the release files say,
/// in the order in which they are given.
pub fn read_image_info(booted: &Option<BootedImage>, files: &Vec<Option<String>>) -> (res: Option<
    String,
>)
    ensures
        optional_view(res) == shown_image(optional_booted(*booted), files@),
{
    if let Some(b) = booted {
        return Some(b.title.as_str().to_owned());
    }
    let mut i: usize = 0;
    assert(files@.skip(0) =~= files@);
    while i < files.len()
        invariant
            i <= files@.len(),
            booted is None,
            first_image_info(files@) == first_image_info(files@.skip(i as int)),
        decreases files@.len() - i,
    {
        proof {
            assert(files@.skip(i as int)[0] == files@[i as int]);
            assert(files@.skip(i as int).drop_first() =~= files@.skip(i + 1));
        }
        if let Some(content) = &files[i] {
            let found = image_info_of_release(content.as_str());
            if found.is_some() {
                return found;
            }
        }
        i = i + 1;
    }
    None
}

/// The first logo that the lines of a release file name.
pub open spec fn logo_in(lines: Seq<Seq<char>>) -> Option<Seq<char>>
    decreases lines.len(),
{
    if lines.len() == 0 {
        None
    } else {
        let value = trim_char(lines[0].skip("LOGO="@.len() as int), '"');
        if begins_with(lines[0], "LOGO="@) && value.len() > 0 {
            Some(value)
        } else {
            logo_in(lines.drop_first())
        }
    }
}

fn logo_of_release(content: &str) -> (res: Option<String>)
    ensures
        optional_view(res) == logo_in(lines_of(content@)),
{
    let list = lines(content);
    let ghost all = views(list@);
    let mut i: usize = 0;
    assert(all.skip(0) =~= all);
    while i < list.len()
        invariant
            i <= list@.len(),
            all == views(list@),
            all == lines_of(content@),
            logo_in(all) == logo_in(all.skip(i as int)),
        decreases list@.len() - i,
    {
        proof {
            assert(all.skip(i as int)[0] == list@[i as int]@);
            assert(all.skip(i as int).drop_first() =~= all.skip(i + 1));
        }
        if let Some(value) = strip_prefix(list[i], "LOGO=") {
            let logo = trim_matches(value, '"');
            if logo.unicode_len() > 0 {
                return Some(logo.to_owned());
            }
        }
        i = i + 1;
    }
    None
}

/// The first logo in release files, of which some cannot be read.
pub open spec fn first_logo(files: Seq<Option<String>>) -> Option<Seq<char>>
    decreases files.len(),
{
    if files.len() == 0 {
        None
    } else {
        let found = match files[0] {
            Some(content) => logo_in(lines_of(content@)),
            None => None,
        };
        if found is Some {
            found
        } else {
            first_logo(files.drop_first())
        }
    }
}

/// The name of the logo of the system, or a common one.
pub open spec fn shown_logo(files: Seq<Option<String>>) -> Seq<char> {
    match first_logo(files) {
        Some(logo) => logo,
        None => "distributor-logo-symbolic"@,
    }
}

/// The name of the logo of the system.
pub fn read_logo_icon_name(files: &Vec<Option<String>>) -> (res: String)
    ensures
        res@ == shown_logo(files@),
{
    let mut i: usize = 0;
    assert(files@.skip(0) =~= files@);
    while i < files.len()
        invariant
            i <= files@.len(),
            first_logo(files@) == first_logo(files@.skip(i as int)),
        decreases files@.len() - i,
    {
        proof {
            assert(files@.skip(i as int)[0] == files@[i as int]);
            assert(files@.skip(i as int).drop_first() =~= files@.skip(i + 1));
        }
        if let Some(content) = &files[i] {
            if let Some(logo) = logo_of_release(content.as_str()) {
                return logo;
            }
        }
        i = i + 1;
    }
    "distributor-logo-symbolic".to_owned()
}

/// When a file was last changed.
#[derive(Debug, Clone, Copy, PartialEq, Eq, Structural)]
pub enum FileAge {
    /// The file is not there, or cannot be asked.
    Missing,
    /// It was changed in the future.
    Future,
    /// It was changed so many seconds ago.
    Seconds(u64),
}

/// When the last update ran.
pub open spec fn run_note(seconds: nat) -> Seq<char> {
    let hours = seconds / 3600;
    if hours < 1 {
        "Last update: less than an hour ago"@
    } else if hours < 24 {
        "Last update: "@ + decimal(hours) + " hours ago"@
    } else {
        "Last update: "@ + decimal(hours / 24) + " days ago"@
    }
}

/// When the system was deployed.
pub open spec fn deploy_note(seconds: nat) -> Seq<char> {
    let hours = seconds / 3600;
    if hours < 24 {
        "System deployed: "@ + decimal(hours) + " hours ago"@
    } else {
        "System deployed: "@ + decimal(hours / 24) + " days ago"@
    }
}

/// When the system was last updated: the first mark of a run that is there decides,
/// and nothing is said where that lies in the future. Without such a mark the age of
/// the deployment is taken.
pub open spec fn last_update_note(marks: Seq<FileAge>, deployed: FileAge) -> Option<Seq<char>>
    decreases marks.len(),
{
    if marks.len() == 0 {
        match deployed {
            FileAge::Seconds(s) => Some(deploy_note(s as nat)),
            _ => None,
        }
    } else {
        match marks[0] {
            FileAge::Missing => last_update_note(marks.drop_first(), deployed),
            FileAge::Future => None,
            FileAge::Seconds(s) => Some(run_note(s as nat)),
        }
    }
}

fn run_text(seconds: u64) -> (res: String)
    ensures
        res@ == run_note(seconds as nat),
{
    let hours: u64 = seconds / 3600;
    if hours < 1 {
        "Last update: less than an hour ago".to_owned()
    } else {
        let mut text: String = "Last update: ".to_owned();
        if hours < 24 {
            text.append(u64_text(hours).as_str());
            text.append(" hours ago");
        } else {
            text.append(u64_text(hours / 24).as_str());
            text.append(" days ago");
        }
        text
    }
}

fn deploy_text(seconds: u64) -> (res: String)
    ensures
        res@ == deploy_note(seconds as nat),
{
    let hours: u64 = seconds / 3600;
    let mut text: String = "System deployed: ".to_owned();
    if hours < 24 {
        text.append(u64_text(hours).as_str());
        text.append(" hours ago");
    } else {
        text.append(u64_text(hours / 24).as_str());
        text.append(" days ago");
    }
    text
}

/// When the system was last updated, in words, from the ages of the files that mark a
/// run and of the deployment.
pub fn get_last_update_time(marks: &Vec<FileAge>, deployed: FileAge) -> (res: Option<String>)
    ensures
        optional_view(res) == last_update_note(marks@, deployed),
{
    let mut i: usize = 0;
    assert(marks@.skip(0) =~= marks@);
    while i < marks.len()
        invariant
            i <= marks@.len(),
            last_update_note(marks@, deployed) == last_update_note(marks@.skip(i as int), deployed),
        decreases marks@.len() - i,
    {
        proof {
            assert(marks@.skip(i as int)[0] == marks@[i as int]);
            assert(marks@.skip(i as int).drop_first() =~= marks@.skip(i + 1));
        }
        match marks[i] {
            FileAge::Missing => {},
            FileAge::Future => {
                return None;
            },
            FileAge::Seconds(s) => {
                return Some(run_text(s));
            },
        }
        i = i + 1;
    }
    assert(marks@.skip(i as int).len() == 0);
    match deployed {
        FileAge::Seconds(s) => Some(deploy_text(s)),
        _ => None,
    }
}

/// The organisation and the repository of an address.
pub open spec fn org_and_repo(uri: Seq<char>) -> Option<(Seq<char>, Seq<char>)> {
    let parts = split(without_transport(uri), '/');
    if parts.len() >= 3 {
        Some((parts[1], join(parts.skip(2), "/"@)))
    } else if parts.len() == 2 {
        Some((parts[0], parts[1]))
    } else {
        None
    }
}

/// The organisation and the repository of an address.
pub fn parse_org_repo(uri: &str) -> (res: Option<(String, String)>)
    ensures
        match res {
            Some(pair) => org_and_repo(uri@) == Some((pair.0@, pair.1@)),
            None => org_and_repo(uri@) is None,
        },
{
    proof {
        reveal_strlit("docker://");
    }
    let total: usize = to_chars(uri).len();
    let clean: &str = match find_str(uri, "docker://") {
        Some(pos) => {
            assert(uri@.subrange(pos + 9, total as int) =~= uri@.skip(pos + 9));
            uri.substring_char(pos + 9, total)
        },
        None => uri,
    };
    let parts = split_char(clean, '/');
    assert(views(parts@).len() == parts@.len());
    if parts.len() >= 3 {
        assert(views(parts@)[1] == parts@[1]@);
        Some((parts[1].to_owned(), join_from(&parts, 2, "/")))
    } else if parts.len() == 2 {
        proof {
            assert(views(parts@)[0] == parts@[0]@);
            assert(views(parts@)[1] == parts@[1]@);
        }
        Some((parts[0].to_owned(), parts[1].to_owned()))
    } else {
        None
    }
}

/// Where the commits of the image at an address are listed.
pub open spec fn commits_address(uri: Seq<char>) -> Option<Seq<char>> {
    match org_and_repo(uri) {
        Some(pair) => Some(
            "https://api.github.com/repos/"@ + pair.0 + "/"@ + pair.1 + "/commits"@,
        ),
        None => None,
    }
}

/// Where the commits of the image at an address are listed; nothing where the address
/// names no repository.
pub fn commits_url(uri: &str) -> (res: Option<String>)
    ensures
        optional_view(res) == commits_address(uri@),
{
    match parse_org_repo(uri) {
        Some((org, repo)) => {
            let mut url: String = "https://api.github.com/repos/".to_owned();
            url.append(org.as_str());
            url.append("/");
            url.append(repo.as_str());
            url.append("/commits");
            Some(url)
        },
        None => None,
    }
}

/// The client for the builds at an address.
pub open spec fn changelog_source(uri: Seq<char>, tag: Seq<char>) -> Option<ClientView> {
    let parts = split(uri, '/');
    if parts.len() >= 3 {
        Some(
            ClientView {
                registry: parts[0],
                org: parts[1],
                image: join(parts.skip(2), "/"@),
                stream: undated(tag),
            },
        )
    } else {
        None
    }
}

/// The client for the builds at an address, in the stream of a tag; nothing where the
/// address has fewer than three parts.
pub fn changelog_client(uri: &str, tag: &str) -> (res: Option<RegistryClient>)
    ensures
        optional_client(res) == changelog_source(uri@, tag@),
{
    let parts = split_char(uri, '/');
    assert(views(parts@).len() == parts@.len());
    if parts.len() >= 3 {
        proof {
            assert(views(parts@)[0] == parts@[0]@);
            assert(views(parts@)[1] == parts@[1]@);
        }
        let image = join_from(&parts, 2, "/");
        let stream = strip_day(tag);
        Some(RegistryClient::new(parts[0], parts[1], image.as_str(), stream.as_str()))
    } else {
        None
    }
}

/// An address with a tag.
pub open spec fn tagged_address(uri: Seq<char>, tag: Seq<char>) -> Seq<char> {
    uri + ":"@ + tag
}

/// An address with a tag.
pub fn tagged(uri: &str, tag: &str) -> (res: String)
    ensures
        res@ == tagged_address(uri@, tag@),
{
    let mut text: String = uri.to_owned();
    text.append(":");
    text.append(tag);
    text
}

/// The tags to choose from.
pub open spec fn offered_tags(configured: Option<Seq<Seq<char>>>) -> Seq<Seq<char>> {
    match configured {
        Some(tags) => tags,
        None => seq!["latest"@, "42"@, "41"@, "testing"@, "rawhide"@],
    }
}

/// The tags to choose from: those of the configuration, or the usual ones.
pub fn tag_choices(configured: Option<Vec<String>>) -> (res: Vec<String>)
    ensures
        owned_views(res@) == offered_tags(
            match configured {
                Some(tags) => Some(owned_views(tags@)),
                None => None,
            },
        ),
{
    match configured {
        Some(tags) => tags,
        None => {
            let tags: Vec<String> = vec![
                "latest".to_owned(),
                "42".to_owned(),
                "41".to_owned(),
                "testing".to_owned(),
                "rawhide".to_owned(),
            ];
            assert(owned_views(tags@) =~= seq!["latest"@, "42"@, "41"@, "testing"@, "rawhide"@]);
            tags
        },
    }
}

/// The tag that is shown as chosen.
pub open spec fn chosen_tag(tags: Seq<Seq<char>>, selected: Seq<char>) -> Option<Seq<char>> {
    if tags.contains(selected) {
        Some(selected)
    } else if tags.len() > 0 {
        Some(tags[0])
    } else {
        None
    }
}

/// The tag that is shown as chosen: the selected one where it is among the choices,
/// else the first of them.
pub fn active_tag<'a>(tags: &'a Vec<String>, selected: &'a str) -> (res: Option<&'a str>)
    ensures
        match res {
            Some(t) => chosen_tag(owned_views(tags@), selected@) == Some(t@),
            None => chosen_tag(owned_views(tags@), selected@) is None,
        },
{
    let mut i: usize = 0;
    while i < tags.len()
        invariant
            i <= tags@.len(),
            forall|k: int| 0 <= k < i ==> #[trigger] owned_views(tags@)[k] != selected@,
        decreases tags@.len() - i,
    {
        if str_eq(tags[i].as_str(), selected) {
            assert(owned_views(tags@)[i as int] == selected@);
            return Some(selected);
        }
        i = i + 1;
    }
    assert(!owned_views(tags@).contains(selected@));
    if tags.len() > 0 {
        assert(owned_views(tags@)[0] == tags@[0]@);
        Some(tags[0].as_str())
    } else {
        None
    }
}

/// Whether the update timer is enabled, from what `systemctl is-enabled` printed.
pub open spec fn timer_answer(output: Seq<char>) -> Option<bool> {
    if trim_white(output) == "enabled"@ {
        Some(true)
    } else if trim_white(output) == "disabled"@ {
        Some(false)
    } else {
        None
    }
}

/// Whether the update timer is enabled, from what `systemctl is-enabled` printed;
/// nothing where that does not tell, or it could not be asked.
pub fn timer_enabled(output: Option<&str>) -> (res: Option<bool>)
    ensures
        res == match output {
            Some(text) => timer_answer(text@),
            None => None,
        },
{
    match output {
        Some(text) => {
            let answer = trim(text);
            if str_eq(answer, "enabled") {
                proof {
                    reveal_strlit("enabled");
                    reveal_strlit("disabled");
                    assert("enabled"@.len() != "disabled"@.len());
                }
                Some(true)
            } else if str_eq(answer, "disabled") {
                Some(false)
            } else {
                None
            }
        },
        None => None,
    }
}

/// Updates run by themselves.
pub open spec fn automatic(timer: Option<bool>, setting: bool) -> bool {
    match timer {
        Some(on) => on,
        None => setting,
    }
}

/// Whether updates run by themselves: what the timer says, else what the settings say.
pub fn auto_updates_enabled(timer: Option<bool>, setting: bool) -> (res: bool)
    ensures
        res == automatic(timer, setting),
{
    match timer {
        Some(on) => on,
        None => setting,
    }
}

/// The command that asks whether the update timer is enabled.
pub open spec fn timer_query(in_flatpak: bool) -> CommandView {
    on_host(in_flatpak, "systemctl"@, seq!["is-enabled"@, "uupd.timer"@])
}

/// The command that asks whether the update timer is enabled.
pub fn timer_query_command(in_flatpak: bool) -> (res: CommandLine)
    ensures
        res@ == timer_query(in_flatpak),
{
    let args: Vec<&str> = vec!["is-enabled", "uupd.timer"];
    assert(views(args@) =~= seq!["is-enabled"@, "uupd.timer"@]);
    host_command(in_flatpak, "systemctl", &args)
}

/// The command that turns the update timer on or off.
pub open spec fn timer_switch(in_flatpak: bool, active: bool) -> CommandView {
    on_host(
        in_flatpak,
        "pkexec"@,
        seq![
            "systemctl"@,
            if active {
                "enable"@
            } else {
                "disable"@
            },
            "--now"@,
            "uupd.timer"@,
        ],
    )
}

/// The command that turns the update timer on or off.
pub fn timer_switch_command(in_flatpak: bool, active: bool) -> (res: CommandLine)
    ensures
        res@ == timer_switch(in_flatpak, active),
{
    let verb: &str = if active {
        "enable"
    } else {
        "disable"
    };
    let args: Vec<&str> = vec!["systemctl", verb, "--now", "uupd.timer"];
    assert(views(args@) =~= seq!["systemctl"@, verb@, "--now"@, "uupd.timer"@]);
    host_command(in_flatpak, "pkexec", &args)
}

/// The command that asks for the status of the deployments.
pub open spec fn status_query(in_flatpak: bool, raised: bool) -> CommandView {
    if raised {
        on_host(in_flatpak, "pkexec"@, seq!["bootc"@, "status"@, "--json"@])
    } else {
        on_host(in_flatpak, "bootc"@, seq!["status"@, "--json"@])
    }
}

/// The command that asks for the status of the deployments, with or without raised
/// rights.
pub fn status_command(in_flatpak: bool, raised: bool) -> (res: CommandLine)
    ensures
        res@ == status_query(in_flatpak, raised),
{
    if raised {
        let args: Vec<&str> = vec!["bootc", "status", "--json"];
        assert(views(args@) =~= seq!["bootc"@, "status"@, "--json"@]);
        host_command(in_flatpak, "pkexec", &args)
    } else {
        let args: Vec<&str> = vec!["status", "--json"];
        assert(views(args@) =~= seq!["status"@, "--json"@]);
        host_command(in_flatpak, "bootc", &args)
    }
}

/// The command that checks whether there is an update.
pub open spec fn update_query(in_flatpak: bool) -> CommandView {
    on_host(in_flatpak, "uupd"@, seq!["update-check"@])
}

/// The command that checks whether there is an update.
pub fn update_check_command(in_flatpak: bool) -> (res: CommandLine)
    ensures
        res@ == update_query(in_flatpak),
{
    let args: Vec<&str> = vec!["update-check"];
    assert(views(args@) =~= seq!["update-check"@]);
    host_command(in_flatpak, "uupd", &args)
}

/// The command that switches to an image.
pub open spec fn image_switch(in_flatpak: bool, full_ref: Seq<char>) -> CommandView {
    on_host(in_flatpak, "pkexec"@, seq!["bootc"@, "switch"@, full_ref])
}

/// The command that switches to an image.
pub fn switch_command(in_flatpak: bool, full_ref: &str) -> (res: CommandLine)
    ensures
        res@ == image_switch(in_flatpak, full_ref@),
{
    let args: Vec<&str> = vec!["bootc", "switch", full_ref];
    assert(views(args@) =~= seq!["bootc"@, "switch"@, full_ref@]);
    host_command(in_flatpak, "pkexec", &args)
}

/// The command that prints a file of the host.
pub open spec fn file_query(in_flatpak: bool, path: Seq<char>) -> CommandView {
    on_host(in_flatpak, "cat"@, seq![path])
}

/// The command that prints a file of the host.
pub fn read_file_command(in_flatpak: bool, path: &str) -> (res: CommandLine)
    ensures
        res@ == file_query(in_flatpak, path@),
{
    let args: Vec<&str> = vec![path];
    assert(views(args@) =~= seq![path@]);
    host_command(in_flatpak, "cat", &args)
}

/// What is said of the connection, and the style of it.
pub open spec fn connection_words(metered: bool) -> (Seq<char>, Seq<char>) {
    if metered {
        ("⚠  Metered connection active — automatic updates are paused"@, "warning"@)
    } else {
        ("✓  Unmetered connection — automatic updates will run normally"@, "success"@)
    }
}

/// What is said of the connection, and the style of it.
pub fn connection_note(metered: bool) -> (res: (&'static str, &'static str))
    ensures
        (res.0@, res.1@) == connection_words(metered),
{
    if metered {
        ("⚠  Metered connection active — automatic updates are paused", "warning")
    } else {
        ("✓  Unmetered connection — automatic updates will run normally", "success")
    }
}

/// The address of the running image is its registry followed by its name.
pub proof fn law_booted_address(image_ref: Seq<char>)
    requires
        booted_image_info(image_ref) is Some,
    ensures
        parse_reference(image_ref) matches Some(r) && booted_image_info(
            image_ref,
        ).unwrap().registry_uri == r.registry + "/"@ + booted_image_info(image_ref).unwrap().title,
{
    let r = parse_reference(image_ref).unwrap();
    assert(r.registry + "/"@ + r.org + "/"@ + r.image =~= r.registry + "/"@ + (r.org + "/"@
        + r.image));
}

/// Without a build number behind its day, a tag belongs to the stream that is left
/// when the day is taken away.
pub proof fn law_undated(tag: Seq<char>)
    requires
        !has_build_number(tag),
    ensures
        undated(tag) == stream_or_tag(tag),
{
}

/// A day at the end of a tag, behind a dot or a dash, is taken away; a short tag, or one
/// that does not end in a digit, stays as it is.
pub proof fn law_day_is_dropped(name: Seq<char>, sep: char, day: Seq<char>, tag: Seq<char>)
    requires
        sep == '.' || sep == '-',
        day.len() == 8,
        all_digits(day),
    ensures
        undated(name.push(sep) + day) == name,
        tag.len() < 9 || !is_digit(tag.last()) ==> undated(tag) == tag,
{
    let dated = name.push(sep) + day;
    let n = dated.len() as int;
    assert(dated[n - 9] == sep);
    assert(dated.subrange(n - 8, n) =~= day);
    assert(dated.take(n - 9) =~= name);
    if tag.len() >= 9 {
        let m = tag.len() as int;
        assert(tag.subrange(m - 8, m)[7] == tag.last());
    }
}

/// A reference names the running image by its organisation and name, and its address by
/// those behind the registry. The tag that is shown is the last word of the stream,
/// whether or not a day follows it.
pub proof fn law_booted_image(
    r: ImageRefView,
    lead: Seq<char>,
    word: Seq<char>,
    sep: char,
    day: Seq<char>,
)
    requires
        !r.registry.contains('/') && !r.org.contains('/') && !r.tag.contains(':'),
        !word.contains('-'),
        word.len() > 0 && !is_digit(word.last()),
        sep == '.' || sep == '-',
        day.len() == 8,
        all_digits(day),
    ensures
        booted_image_info(r.registry + "/"@ + r.org + "/"@ + r.image + ":"@ + r.tag) matches Some(
            b,
        ) && {
            &&& b.title == r.org + "/"@ + r.image
            &&& b.registry_uri == r.registry + "/"@ + r.org + "/"@ + r.image
            &&& r.tag == word ==> b.selected_tag == word
            &&& r.tag == word.push(sep) + day ==> b.selected_tag == word
            &&& r.tag == lead.push('-') + word ==> b.selected_tag == word
            &&& r.tag == (lead.push('-') + word).push(sep) + day ==> b.selected_tag == word
        },
{
    law_reference_round_trip(r);
    law_reference_text(r);
    law_split_join(seq![word], '-');
    law_split_concat(lead, word, '-');
    law_day_is_dropped(word, sep, day, word);
    law_day_is_dropped(lead.push('-') + word, sep, day, lead.push('-') + word);
    assert((lead.push('-') + word).last() == word.last());
}

/// Where the running image is known, its tag and its name are shown; otherwise the tag is
/// `latest` and the name that of the release files.
pub proof fn law_unknown_image(b: BootedImageView, files: Seq<Option<String>>)
    ensures
        booted_tag(Some(b)) == b.selected_tag,
        booted_tag(None) == "latest"@,
        shown_image(Some(b), files) == Some(b.title),
        shown_image(None, files) == first_image_info(files),
{
}

/// A release file gives the name of the image, with its variant where it gives one; a file
/// without a name gives nothing.
pub proof fn law_release_image_info(id: Seq<char>, variant: Seq<char>, content: Seq<char>)
    requires
        !id.contains('"') && !id.contains('\n'),
        !variant.contains('"') && !variant.contains('\n'),
    ensures
        release_image_info(quoted_line("IMAGE_ID="@, id).push('\n')) == Some(id),
        release_image_info(
            quoted_line("IMAGE_ID="@, id).push('\n') + quoted_line("VARIANT_ID="@, variant).push(
                '\n',
            ),
        ) == Some(id + "  ·  "@ + variant),
        (forall|i: int|
            0 <= i < lines_of(content).len() ==> !begins_with(
                #[trigger] lines_of(content)[i],
                "IMAGE_ID="@,
            )) ==> release_image_info(content) is None,
{
    reveal_strlit("IMAGE_ID=");
    reveal_strlit("VARIANT_ID=");
    let a = quoted_line("IMAGE_ID="@, id);
    let b = quoted_line("VARIANT_ID="@, variant);
    lemma_quoted_line("IMAGE_ID="@, id);
    lemma_quoted_line("VARIANT_ID="@, variant);
    assert(a[0] == 'I' && b[0] == 'V');
    if begins_with(a, "VARIANT_ID="@) {
        assert(a.take(11)[0] == 'V');
    }
    if begins_with(b, "IMAGE_ID="@) {
        assert(b.take(9)[0] == 'I');
    }
    let one = seq![a];
    law_lines(one);
    assert(join(one, seq!['\n']) == a);
    assert(one.drop_last() =~= Seq::empty());
    assert(last_value(one.drop_last(), "VARIANT_ID="@) is None);
    assert(last_value(one, "VARIANT_ID="@) is None);
    assert(last_value(one, "IMAGE_ID="@) == Some(id));
    let two = seq![a, b];
    assert forall|i: int| 0 <= i < two.len() implies !(#[trigger] two[i]).contains('\n') && (
    two[i].len() > 0 ==> two[i].last() != '\r') by {
        assert(i == 0 || i == 1);
    }
    law_lines(two);
    assert(two.drop_last() =~= one);
    assert(join(two, seq!['\n']) =~= a + seq!['\n'] + b);
    assert(join(two, seq!['\n']).push('\n') =~= a.push('\n') + b.push('\n'));
    assert(last_value(two, "IMAGE_ID="@) == Some(id));
    assert(last_value(two, "VARIANT_ID="@) == Some(variant));
    law_value_needs_line(lines_of(content), "IMAGE_ID="@);
    if forall|i: int|
        0 <= i < lines_of(content).len() ==> !begins_with(
            #[trigger] lines_of(content)[i],
            "IMAGE_ID="@,
        ) {
        if last_value(lines_of(content), "IMAGE_ID="@) is Some {
            let all = lines_of(content);
            let i = choose|i: int|
                0 <= i < all.len() && #[trigger] all[i].len() >= 9 && all[i].take(9)
                    == "IMAGE_ID="@;
            assert(begins_with(all[i], "IMAGE_ID="@));
        }
    }
}

/// The name comes from the first release file that gives one, and there is none where no
/// file does.
#[verifier::spinoff_prover]
#[verifier::rlimit(40)]
pub proof fn law_first_image_info(files: Seq<Option<String>>, i: int)
    ensures
        0 <= i < files.len() && (files[i] matches Some(content) && release_image_info(content@)
            is Some) && (forall|j: int|
            0 <= j < i ==> ((#[trigger] files[j]) matches Some(other) ==> release_image_info(
                other@,
            ) is None)) ==> first_image_info(files) == release_image_info(files[i].unwrap()@),
        (forall|j: int|
            0 <= j < files.len() ==> ((#[trigger] files[j]) matches Some(other)
                ==> release_image_info(other@) is None)) ==> first_image_info(files) is None,
    decreases files.len(),
{
    if files.len() > 0 {
        let rest = files.drop_first();
        law_first_image_info(rest, i - 1);
        let nothing = |f: Option<String>| f matches Some(other) ==> release_image_info(other@) is None;
        if forall|j: int| 0 <= j < i ==> nothing(#[trigger] files[j]) {
            assert forall|j: int| 0 <= j < i - 1 && j < rest.len() implies nothing(
                #[trigger] rest[j],
            ) by {
                assert(nothing(files[j + 1]));
            }
            if 0 < i < files.len() {
                assert(nothing(files[0]));
                assert(rest[i - 1] == files[i]);
            }
        }
        if forall|j: int| 0 <= j < files.len() ==> nothing(#[trigger] files[j]) {
            assert(nothing(files[0]));
            assert forall|j: int| 0 <= j < rest.len() implies nothing(#[trigger] rest[j]) by {
                assert(nothing(files[j + 1]));
            }
        }
    }
}

/// The logo of a release file is the first that is not empty, with or without quotes.
#[verifier::spinoff_prover]
#[verifier::rlimit(40)]
pub proof fn law_logo(lines: Seq<Seq<char>>, i: int, value: Seq<char>, quoted: bool)
    requires
        value.len() > 0,
        !value.contains('"') && !value.contains('\n'),
    ensures
        0 <= i < lines.len() && lines[i] == (if quoted {
            quoted_line("LOGO="@, value)
        } else {
            "LOGO="@ + value
        }) && (forall|j: int|
            0 <= j < i ==> !begins_with(#[trigger] lines[j], "LOGO="@) || lines[j] == "LOGO="@)
            ==> logo_in(lines) == Some(value),
        (forall|j: int|
            0 <= j < lines.len() ==> !begins_with(#[trigger] lines[j], "LOGO="@) || lines[j]
                == "LOGO="@) ==> logo_in(lines) is None,
    decreases lines.len(),
{
    reveal_strlit("LOGO=");
    lemma_quoted_line("LOGO="@, value);
    law_trim_quotes(value, '"');
    law_trim_quotes(Seq::empty(), '"');
    assert(("LOGO="@ + value).take(5) =~= "LOGO="@);
    assert(("LOGO="@ + value).skip(5) =~= value);
    assert("LOGO="@.skip(5) =~= Seq::<char>::empty());
    if lines.len() > 0 {
        let rest = lines.drop_first();
        law_logo(rest, i - 1, value, quoted);
        let other = |line: Seq<char>| !begins_with(line, "LOGO="@) || line == "LOGO="@;
        if forall|j: int| 0 <= j < i ==> other(#[trigger] lines[j]) {
            assert forall|j: int| 0 <= j < i - 1 && j < rest.len() implies other(
                #[trigger] rest[j],
            ) by {
                assert(other(lines[j + 1]));
            }
            if 0 < i < lines.len() {
                assert(other(lines[0]));
                assert(rest[i - 1] == lines[i]);
            }
        }
        if forall|j: int| 0 <= j < lines.len() ==> other(#[trigger] lines[j]) {
            assert(other(lines[0]));
            assert forall|j: int| 0 <= j < rest.len() implies other(#[trigger] rest[j]) by {
                assert(other(lines[j + 1]));
            }
        }
    }
}

/// The logo comes from the first release file that names one; without one it is a common
/// one.
#[verifier::spinoff_prover]
#[verifier::rlimit(40)]
pub proof fn law_first_logo(files: Seq<Option<String>>, i: int)
    ensures
        0 <= i < files.len() && (files[i] matches Some(content) && logo_in(lines_of(content@))
            is Some) && (forall|j: int|
            0 <= j < i ==> ((#[trigger] files[j]) matches Some(other) ==> logo_in(
                lines_of(other@),
            ) is None)) ==> Some(shown_logo(files)) == logo_in(lines_of(files[i].unwrap()@)),
        (forall|j: int|
            0 <= j < files.len() ==> ((#[trigger] files[j]) matches Some(other) ==> logo_in(
                lines_of(other@),
            ) is None)) ==> shown_logo(files) == "distributor-logo-symbolic"@,
    decreases files.len(),
{
    if files.len() > 0 {
        let rest = files.drop_first();
        law_first_logo(rest, i - 1);
        let nothing = |f: Option<String>| f matches Some(other) ==> logo_in(lines_of(other@)) is None;
        if forall|j: int| 0 <= j < i ==> nothing(#[trigger] files[j]) {
            assert forall|j: int| 0 <= j < i - 1 && j < rest.len() implies nothing(
                #[trigger] rest[j],
            ) by {
                assert(nothing(files[j + 1]));
            }
            if 0 < i < files.len() {
                assert(nothing(files[0]));
                assert(rest[i - 1] == files[i]);
            }
        }
        if forall|j: int| 0 <= j < files.len() ==> nothing(#[trigger] files[j]) {
            assert(nothing(files[0]));
            assert forall|j: int| 0 <= j < rest.len() implies nothing(#[trigger] rest[j]) by {
                assert(nothing(files[j + 1]));
            }
        }
    }
}

/// The age of a run is told in hours from one hour on and in days from one day on; that of
/// a deployment in hours up to a day.
pub proof fn law_ages(seconds: nat)
    ensures
        seconds < 3600 ==> run_note(seconds) == "Last update: less than an hour ago"@,
        3600 <= seconds < 86400 ==> run_note(seconds) == "Last update: "@ + decimal(seconds / 3600)
            + " hours ago"@,
        seconds >= 86400 ==> run_note(seconds) == "Last update: "@ + decimal(seconds / 86400)
            + " days ago"@,
        seconds < 86400 ==> deploy_note(seconds) == "System deployed: "@ + decimal(seconds / 3600)
            + " hours ago"@,
        seconds >= 86400 ==> deploy_note(seconds) == "System deployed: "@ + decimal(
            seconds / 86400,
        ) + " days ago"@,
{
    assert((seconds / 3600) / 24 == seconds / 86400);
}

/// The first mark of a run that is there tells when the last update ran, unless it lies in
/// the future; without any mark the deployment does.
pub proof fn law_last_update(marks: Seq<FileAge>, deployed: FileAge, i: int)
    ensures
        0 <= i < marks.len() && (forall|j: int|
            0 <= j < i ==> #[trigger] marks[j] == FileAge::Missing) ==> {
            &&& marks[i] matches FileAge::Seconds(s) ==> last_update_note(marks, deployed) == Some(
                run_note(s as nat),
            )
            &&& marks[i] == FileAge::Future ==> last_update_note(marks, deployed) is None
        },
        (forall|j: int| 0 <= j < marks.len() ==> #[trigger] marks[j] == FileAge::Missing) ==> {
            &&& deployed matches FileAge::Seconds(s) ==> last_update_note(marks, deployed) == Some(
                deploy_note(s as nat),
            )
            &&& !(deployed is Seconds) ==> last_update_note(marks, deployed) is None
        },
    decreases marks.len(),
{
    if marks.len() > 0 {
        let rest = marks.drop_first();
        law_last_update(rest, deployed, i - 1);
        if forall|j: int| 0 <= j < i ==> #[trigger] marks[j] == FileAge::Missing {
            assert forall|j: int| 0 <= j < i - 1 && j < rest.len() implies #[trigger] rest[j]
                == FileAge::Missing by {
                assert(marks[j + 1] == FileAge::Missing);
            }
            if 0 < i < marks.len() {
                assert(marks[0] == FileAge::Missing);
                assert(rest[i - 1] == marks[i]);
            }
        }
        if forall|j: int| 0 <= j < marks.len() ==> #[trigger] marks[j] == FileAge::Missing {
            assert(marks[0] == FileAge::Missing);
            assert forall|j: int| 0 <= j < rest.len() implies #[trigger] rest[j]
                == FileAge::Missing by {
                assert(marks[j + 1] == FileAge::Missing);
            }
        }
    }
}

/// The repository of an address is what follows its registry and organisation, with or
/// without a transport before them; an address of two parts has no registry, and one of a
/// single part names no repository. The commits are listed under that repository.
pub proof fn law_org_and_repo(
    lead: Seq<char>,
    registry: Seq<char>,
    org: Seq<char>,
    repo: Seq<char>,
)
    requires
        !lead.contains('/'),
        !registry.contains('/'),
        !org.contains('/'),
    ensures
        ({
            let address = registry.push('/') + (org.push('/') + repo);
            let listed = "https://api.github.com/repos/"@ + org + "/"@ + repo + "/commits"@;
            &&& org_and_repo(lead + "docker://"@ + address) == Some((org, repo))
            &&& commits_address(lead + "docker://"@ + address) == Some(listed)
            &&& !contains_text(address, "docker://"@) ==> org_and_repo(address) == Some(
                (org, repo),
            ) && commits_address(address) == Some(listed)
            &&& !repo.contains('/') && !contains_text(org.push('/') + repo, "docker://"@)
                ==> org_and_repo(org.push('/') + repo) == Some((org, repo))
            &&& !contains_text(org, "docker://"@) ==> org_and_repo(org) is None && commits_address(
                org,
            ) is None
        }),
{
    reveal_strlit("/");
    assert("/"@ =~= seq!['/']);
    let address = registry.push('/') + (org.push('/') + repo);
    lemma_reference_parts(registry, org, repo);
    lemma_transport(lead, address);
    lemma_find_text(address, "docker://"@);
    lemma_find_text(org.push('/') + repo, "docker://"@);
    lemma_find_text(org, "docker://"@);
    law_split_concat(org, repo, '/');
    law_split_join(seq![org], '/');
    if !repo.contains('/') {
        law_split_join(seq![repo], '/');
        assert((seq![org] + seq![repo])[1] == repo);
    }
}

/// The builds of an address come from its registry, organisation and image, in the stream
/// of the tag without its day. An address with fewer parts has none.
pub proof fn law_changelog_source(
    registry: Seq<char>,
    org: Seq<char>,
    image: Seq<char>,
    tag: Seq<char>,
)
    requires
        !registry.contains('/'),
        !org.contains('/'),
    ensures
        changelog_source(registry.push('/') + (org.push('/') + image), tag) matches Some(c)
            && c.registry == registry && c.org == org && c.image == image && c.stream == undated(
            tag,
        ),
        changelog_source(registry.push('/') + org, tag) is None,
        changelog_source(org, tag) is None,
{
    reveal_strlit("/");
    assert("/"@ =~= seq!['/']);
    lemma_reference_parts(registry, org, image);
    law_split_concat(registry, org, '/');
    law_split_join(seq![registry], '/');
    law_split_join(seq![org], '/');
}

/// An address and a tag stand on the two sides of a colon.
pub proof fn law_tagged_address(uri: Seq<char>, tag: Seq<char>)
    ensures
        tagged_address(uri, tag) == uri + ":"@ + tag,
{
}

/// The configured tags are offered as they are, the usual ones only where none are
/// configured. The selected tag is shown as chosen where it is offered, else the first.
pub proof fn law_offered_tags(tags: Seq<Seq<char>>, selected: Seq<char>)
    ensures
        offered_tags(Some(tags)) == tags,
        offered_tags(None) == seq!["latest"@, "42"@, "41"@, "testing"@, "rawhide"@],
        tags.contains(selected) ==> chosen_tag(tags, selected) == Some(selected),
        !tags.contains(selected) && tags.len() > 0 ==> chosen_tag(tags, selected) == Some(tags[0]),
        tags.len() == 0 ==> chosen_tag(tags, selected) is None,
{
}

/// The answer of the timer is read without the white space around it. What the timer
/// says counts before the settings.
pub proof fn law_timer(output: Seq<char>, on: bool, setting: bool)
    ensures
        timer_answer(output) == Some(true) <==> trim_white(output) == "enabled"@,
        timer_answer(output) == Some(false) <==> trim_white(output) == "disabled"@,
        automatic(Some(on), setting) == on,
        automatic(None, setting) == setting,
{
    reveal_strlit("enabled");
    reveal_strlit("disabled");
    assert("enabled"@.len() != "disabled"@.len());
}

/// The commands that ask and change the system.
pub proof fn law_commands(in_flatpak: bool, full_ref: Seq<char>, path: Seq<char>)
    ensures
        timer_query(in_flatpak) == on_host(
            in_flatpak,
            "systemctl"@,
            seq!["is-enabled"@, "uupd.timer"@],
        ),
        timer_switch(in_flatpak, true) == on_host(
            in_flatpak,
            "pkexec"@,
            seq!["systemctl"@, "enable"@, "--now"@, "uupd.timer"@],
        ),
        timer_switch(in_flatpak, false) == on_host(
            in_flatpak,
            "pkexec"@,
            seq!["systemctl"@, "disable"@, "--now"@, "uupd.timer"@],
        ),
        status_query(in_flatpak, false) == on_host(
            in_flatpak,
            "bootc"@,
            seq!["status"@, "--json"@],
        ),
        status_query(in_flatpak, true) == on_host(
            in_flatpak,
            "pkexec"@,
            seq!["bootc"@, "status"@, "--json"@],
        ),
        update_query(in_flatpak) == on_host(in_flatpak, "uupd"@, seq!["update-check"@]),
        image_switch(in_flatpak, full_ref) == on_host(
            in_flatpak,
            "pkexec"@,
            seq!["bootc"@, "switch"@, full_ref],
        ),
        file_query(in_flatpak, path) == on_host(in_flatpak, "cat"@, seq![path]),
{
}

/// On a metered connection a warning says that updates are paused; on another one it is
/// said that they run.
pub proof fn law_connection(metered: bool)
    ensures
        metered ==> connection_words(metered)
            == ("⚠  Metered connection active — automatic updates are paused"@, "warning"@),
        !metered ==> connection_words(metered)
            == ("✓  Unmetered connection — automatic updates will run normally"@, "success"@),
{
}

/// A status tells of the running image by its reference, which stands at one of two
/// places; without one it tells nothing.
pub proof fn law_status_image(document: Seq<u8>, reference: Seq<char>)
    ensures
        ({
            let first = json_at(document, "/status/booted/image/image/image"@);
            let second = json_at(document, "/status/booted/image/image"@);
            &&& first == NodeView::Text(reference) ==> status_image_info(document)
                == booted_image_info(reference)
            &&& first == NodeView::Absent && second == NodeView::Text(reference)
                ==> status_image_info(document) == booted_image_info(reference)
            &&& !(first is Text) && !(second is Text) ==> status_image_info(document) is None
        }),
{
}

} // verus!
