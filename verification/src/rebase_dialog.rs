//! Switching to an earlier build: a calendar of the builds, and what it offers.

use crate::date::{
    build_time, compact_date, days_earlier, days_from_monday, days_in_month, earlier,
    first_of_month, has_days_earlier, law_compact_round_trip, law_days_without_gaps,
    law_key_orders_days, lemma_day_number_bound, long_date, month_days, month_title, short_date,
    weekday_of, CalendarDate, MAX_YEAR, Timestamp,
};
use crate::number::{decimal, hex_text, hexadecimal, i64_text, signed_decimal, u64_text};
use crate::registry_client::{
    day_keys, oldest_versions_first, optional_client, sort_oldest_first, version_views, ClientView,
    ImageVersion, ImageVersionView, RegistryClient,
};
use crate::order::{by_key, law_arranged_by_key, sorted_positions};
use crate::tag::{build_day, law_forms_agree, law_own_builds_recognised, stream_of};
use vstd::prelude::*;

verus! {

/// The columns of the calendar: days of the week, from Monday on.
pub const COLUMNS: usize = 7;

/// The places of the calendar: six weeks.
pub const SLOTS: usize = 42;

/// A day of the calendar.
#[derive(Debug, Clone, Copy, PartialEq, Eq, Structural)]
pub struct DayCell {
    pub date: CalendarDate,
    /// Whether the day can be picked.
    pub enabled: bool,
    /// Whether there is a build of that day.
    pub available: bool,
    /// Whether it is the day of the current build.
    pub current: bool,
    /// Whether the day is picked.
    pub selected: bool,
    /// Whether it is today.
    pub today: bool,
}

/// Some build has that day.
pub open spec fn has_build(list: Seq<ImageVersionView>, date: CalendarDate) -> bool {
    exists|i: int| 0 <= i < list.len() && (#[trigger] list[i]).date == date
}

/// The day as the calendar shows it.
pub open spec fn day_cell(
    date: CalendarDate,
    list: Seq<ImageVersionView>,
    current: Option<CalendarDate>,
    selected: Option<CalendarDate>,
    today: CalendarDate,
) -> DayCell {
    DayCell {
        date,
        enabled: has_build(list, date) && date.spec_key() <= today.spec_key(),
        available: has_build(list, date),
        current: current == Some(date),
        selected: selected == Some(date),
        today: date == today,
    }
}

/// How many days of a month the calendar shows: all, but none of the very last month
/// that a date can have.
pub open spec fn shown_days(displayed: CalendarDate) -> int {
    if displayed.year == MAX_YEAR && displayed.month == 12 {
        0
    } else {
        month_days(displayed.year as int, displayed.month as int)
    }
}

/// The day at a place of the calendar.
pub open spec fn day_at(displayed: CalendarDate, slot: int) -> int {
    slot - weekday_of(displayed) + 1
}

/// What the calendar shows at a place: the first day of the month stands in the
/// column of its day of the week.
pub open spec fn cell_at(
    displayed: CalendarDate,
    slot: int,
    list: Seq<ImageVersionView>,
    current: Option<CalendarDate>,
    selected: Option<CalendarDate>,
    today: CalendarDate,
) -> Option<DayCell> {
    let day = day_at(displayed, slot);
    if 1 <= day <= shown_days(displayed) {
        Some(
            day_cell(
                CalendarDate { year: displayed.year, month: displayed.month, day: day as u32 },
                list,
                current,
                selected,
                today,
            ),
        )
    } else {
        None
    }
}

/// The place of the last build of a day; nothing where there is none.
fn build_index(list: &Vec<ImageVersion>, date: CalendarDate) -> (res: Option<usize>)
    ensures
        match res {
            Some(i) => i < list@.len() && list@[i as int].date == date && forall|k: int|
                i < k < list@.len() ==> (#[trigger] list@[k]).date != date,
            None => !has_build(version_views(list@), date),
        },
        res is Some ==> has_build(version_views(list@), date),
{
    let mut i: usize = list.len();
    while i > 0
        invariant
            i <= list@.len(),
            forall|k: int| i <= k < list@.len() ==> (#[trigger] list@[k]).date != date,
        decreases i,
    {
        if list[i - 1].date == date {
            assert(version_views(list@)[i - 1].date == date);
            return Some(i - 1);
        }
        i = i - 1;
    }
    proof {
        assert forall|k: int| 0 <= k < list@.len() implies (#[trigger] version_views(
            list@,
        )[k]).date != date by {
            assert(list@[k].date != date);
        }
    }
    None
}

/// The last build of a day, where there is one.
pub open spec fn build_on(list: Seq<ImageVersionView>, date: CalendarDate) -> Option<
    ImageVersionView,
>
    decreases list.len(),
{
    if list.len() == 0 {
        None
    } else if list.last().date == date {
        Some(list.last())
    } else {
        build_on(list.drop_last(), date)
    }
}

/// The last build of a day is the one behind which no other build has that day; there is
/// none where no build has it.
pub proof fn law_build_on(list: Seq<ImageVersionView>, date: CalendarDate, i: int)
    ensures
        0 <= i < list.len() && list[i].date == date && (forall|k: int|
            i < k < list.len() ==> (#[trigger] list[k]).date != date) ==> build_on(list, date)
            == Some(list[i]),
        (forall|k: int| 0 <= k < list.len() ==> (#[trigger] list[k]).date != date) ==> build_on(
            list,
            date,
        ) is None,
    decreases list.len(),
{
    if list.len() > 0 {
        let front = list.drop_last();
        law_build_on(front, date, i);
        if 0 <= i < list.len() - 1 && (forall|k: int|
            i < k < list.len() ==> (#[trigger] list[k]).date != date) {
            assert(list[list.len() - 1].date != date);
            assert forall|k: int| i < k < front.len() implies (#[trigger] front[k]).date
                != date by {
                assert(list[k].date != date);
            }
        }
        if forall|k: int| 0 <= k < list.len() ==> (#[trigger] list[k]).date != date {
            assert(list[list.len() - 1].date != date);
            assert forall|k: int| 0 <= k < front.len() implies (#[trigger] front[k]).date
                != date by {
                assert(list[k].date != date);
            }
        }
    }
}

/// The last build of a day.
pub fn version_on<'a>(list: &'a Vec<ImageVersion>, date: CalendarDate) -> (res: Option<
    &'a ImageVersion,
>)
    ensures
        match res {
            Some(v) => exists|i: int|
                0 <= i < list@.len() && *v == #[trigger] list@[i] && v.date == date && forall|
                    k: int,
                |
                    i < k < list@.len() ==> (#[trigger] list@[k]).date != date,
            None => !has_build(version_views(list@), date),
        },
        match res {
            Some(v) => build_on(version_views(list@), date) == Some(v@),
            None => build_on(version_views(list@), date) is None,
        },
{
    let ghost all = version_views(list@);
    match build_index(list, date) {
        Some(i) => {
            proof {
                assert(list@[i as int] == list[i as int]);
                assert(all[i as int] == list@[i as int]@);
                assert forall|k: int| i < k < all.len() implies (#[trigger] all[k]).date
                    != date by {
                    assert(list@[k].date != date);
                }
                law_build_on(all, date, i as int);
            }
            Some(&list[i])
        },
        None => {
            proof {
                law_build_on(all, date, 0);
            }
            None
        },
    }
}

/// The day of the last build of a list.
pub open spec fn current_day(list: Seq<ImageVersionView>) -> Option<CalendarDate> {
    if list.len() > 0 {
        Some(list.last().date)
    } else {
        None
    }
}

/// The current build: the last of the list.
pub fn current_date(list: &Vec<ImageVersion>) -> (res: Option<CalendarDate>)
    ensures
        res == current_day(version_views(list@)),
{
    assert(version_views(list@).len() == list@.len());
    if list.len() > 0 {
        assert(version_views(list@).last() == list@.last()@);
        Some(list[list.len() - 1].date)
    } else {
        None
    }
}

/// A month of the calendar.
#[derive(Debug, Clone)]
pub struct CalendarMonth {
    pub title: String,
    /// Whether the month after can be shown.
    pub has_next: bool,
    /// The days at their places.
    pub cells: Vec<Option<DayCell>>,
}

/// The month after the displayed one can be shown.
pub open spec fn month_follows(displayed: CalendarDate, today: CalendarDate) -> bool {
    displayed.spec_key() < (CalendarDate {
        year: today.year,
        month: today.month,
        day: 1,
    }).spec_key()
}

/// The calendar of a month with the builds of `list`. `displayed` is the first of the
/// month.
pub fn calendar_month(
    displayed: CalendarDate,
    list: &Vec<ImageVersion>,
    current: Option<CalendarDate>,
    selected: Option<CalendarDate>,
    today: CalendarDate,
) -> (res: CalendarMonth)
    requires
        displayed.wf(),
        displayed.day == 1,
        today.wf(),
    ensures
        res.title@ == month_title(displayed),
        res.has_next == month_follows(displayed, today),
        res.cells@ == Seq::new(
            SLOTS as nat,
            |slot: int|
                cell_at(displayed, slot, version_views(list@), current, selected, today),
        ),
{
    let this_month = first_of_month(today);
    let has_next: bool = displayed.key() < this_month.key();
    let days: u32 = days_in_month(displayed);
    let lead: u32 = days_from_monday(displayed);
    let ghost want = Seq::new(
        SLOTS as nat,
        |slot: int| cell_at(displayed, slot, version_views(list@), current, selected, today),
    );
    let mut cells: Vec<Option<DayCell>> = Vec::new();
    let mut slot: u32 = 0;
    while slot < 42
        invariant
            slot <= 42,
            displayed.wf(),
            displayed.day == 1,
            today.wf(),
            days == shown_days(displayed),
            lead == weekday_of(displayed),
            want == Seq::new(
                SLOTS as nat,
                |slot: int|
                    cell_at(displayed, slot, version_views(list@), current, selected, today),
            ),
            cells@ == want.take(slot as int),
        decreases 42 - slot,
    {
        let ghost before = cells@;
        if slot < lead || slot - lead >= days {
            cells.push(None);
        } else {
            let day: u32 = slot - lead + 1;
            let date = CalendarDate { year: displayed.year, month: displayed.month, day };
            let available: bool = build_index(list, date).is_some();
            let picked: bool = match selected {
                Some(d) => d == date,
                None => false,
            };
            let is_current: bool = match current {
                Some(d) => d == date,
                None => false,
            };
            let future: bool = date.key() > today.key();
            cells.push(
                Some(
                    DayCell {
                        date,
                        enabled: available && !future,
                        available,
                        current: is_current,
                        selected: picked,
                        today: date == today,
                    },
                ),
            );
        }
        proof {
            assert(cells@.last() == want[slot as int]);
            assert(want.take(slot + 1) =~= want.take(slot as int).push(want[slot as int]));
        }
        slot = slot + 1;
    }
    assert(want.take(42) =~= want);
    CalendarMonth { title: displayed.month_title(), has_next, cells }
}

/// Every day of a month has one place in the calendar, in the column of its day of
/// the week; places before and behind the month are empty.
pub proof fn law_calendar_complete(
    displayed: CalendarDate,
    day: u32,
    list: Seq<ImageVersionView>,
    current: Option<CalendarDate>,
    selected: Option<CalendarDate>,
    today: CalendarDate,
)
    requires
        displayed.wf(),
        displayed.day == 1,
        1 <= day <= shown_days(displayed),
    ensures
        ({
            let date = CalendarDate { year: displayed.year, month: displayed.month, day };
            let slot = weekday_of(displayed) + day - 1;
            &&& 0 <= slot < SLOTS
            &&& slot % COLUMNS as int == weekday_of(date)
            &&& cell_at(displayed, slot, list, current, selected, today) == Some(
                day_cell(date, list, current, selected, today),
            )
            &&& forall|other: int|
                (#[trigger] cell_at(displayed, other, list, current, selected, today) matches Some(
                    c,
                ) && c.date == date) ==> other == slot
        }),
{
    let date = CalendarDate { year: displayed.year, month: displayed.month, day };
    let slot = weekday_of(displayed) + day - 1;
    assert(date.day_number() == displayed.day_number() + day - 1);
    assert forall|other: int|
        (#[trigger] cell_at(displayed, other, list, current, selected, today) matches Some(c)
            && c.date == date) implies other == slot by {
        let d = day_at(displayed, other);
        assert(1 <= d <= 31);
        assert(d == day);
    }
}

/// A day can be picked exactly where there is a build of it and it is not in the
/// future.
pub proof fn law_pickable_days(
    date: CalendarDate,
    list: Seq<ImageVersionView>,
    current: Option<CalendarDate>,
    selected: Option<CalendarDate>,
    today: CalendarDate,
)
    requires
        date.wf(),
        today.wf(),
    ensures
        day_cell(date, list, current, selected, today).enabled <==> has_build(list, date)
            && date.day_number() <= today.day_number(),
{
    law_key_orders_days(date, today);
}

/// The day that is picked after a click.
pub open spec fn toggled(selected: Option<CalendarDate>, clicked: CalendarDate) -> Option<
    CalendarDate,
> {
    if selected == Some(clicked) {
        None
    } else {
        Some(clicked)
    }
}

/// The day that is picked after a click: the one clicked, or none where it was picked
/// already.
pub fn toggle_selection(selected: Option<CalendarDate>, clicked: CalendarDate) -> (res: Option<
    CalendarDate,
>)
    ensures
        res == toggled(selected, clicked),
{
    match selected {
        Some(d) => if d == clicked {
            None
        } else {
            Some(clicked)
        },
        None => Some(clicked),
    }
}

/// What is shown of a picked build.
#[derive(Debug, Clone)]
pub struct BuildDetails {
    pub version: String,
    pub kernel: String,
    pub built: String,
    pub commit: String,
    /// The words on the button.
    pub action: String,
    /// Whether the button can be pressed.
    pub enabled: bool,
}

/// The words on the button for a build.
pub open spec fn action_label(date: CalendarDate, current: Option<CalendarDate>) -> Seq<char> {
    if current == Some(date) {
        "Currently Installed"@
    } else {
        "Rebase to "@ + short_date(date) + "…"@
    }
}

/// The commit of a build as it is shown.
pub open spec fn commit_label(revision: Seq<char>) -> Seq<char> {
    if revision.len() == 0 {
        "—"@
    } else {
        revision
    }
}

/// What is shown of a picked build: one can switch to it unless it is the current one.
pub fn build_details(v: &ImageVersion, date: CalendarDate, current: Option<CalendarDate>) -> (res:
    BuildDetails)
    requires
        date.wf(),
        v.created.wf(),
    ensures
        res.version@ == v.version@,
        res.kernel@ == v.kernel@,
        res.built@ == build_time(v.created),
        res.commit@ == commit_label(v.revision@),
        res.action@ == action_label(date, current),
        res.enabled == (current != Some(date)),
{
    let is_current: bool = match current {
        Some(d) => d == date,
        None => false,
    };
    let action: String = if is_current {
        "Currently Installed".to_owned()
    } else {
        let mut text: String = "Rebase to ".to_owned();
        text.append(date.short().as_str());
        text.append("…");
        text
    };
    let commit: String = if v.revision.as_str().unicode_len() == 0 {
        "—".to_owned()
    } else {
        v.revision.as_str().to_owned()
    };
    BuildDetails {
        version: v.version.as_str().to_owned(),
        kernel: v.kernel.as_str().to_owned(),
        built: v.created.build_time(),
        commit,
        action,
        enabled: !is_current,
    }
}

/// The question before switching to a build.
pub open spec fn confirm_question(date: CalendarDate, version: Seq<char>) -> Seq<char> {
    "Your system will be rebased to the "@ + long_date(date) + " build (version "@ + version
        + ").\n\nThis requires a restart to take effect and will re-download the full image."@
}

/// The question before switching to a build.
pub fn confirm_text(date: CalendarDate, version: &str) -> (res: String)
    requires
        date.wf(),
    ensures
        res@ == confirm_question(date, version@),
{
    let mut text: String = "Your system will be rebased to the ".to_owned();
    text.append(date.long().as_str());
    text.append(" build (version ");
    text.append(version);
    text.append(
        ").\n\nThis requires a restart to take effect and will re-download the full image.",
    );
    text
}

/// How running `bootc switch` ended.
#[derive(Debug, Clone)]
pub enum SwitchOutcome {
    /// It could not be run, and why.
    NotRun(String),
    /// It ended, with its exit code where it has one.
    Exited(Option<i32>),
}

/// What went wrong when switching; nothing where it succeeded.
pub open spec fn switch_error(outcome: SwitchOutcome) -> Option<Seq<char>> {
    match outcome {
        SwitchOutcome::NotRun(reason) => Some("Failed to run bootc switch: "@ + reason@),
        SwitchOutcome::Exited(Some(0)) => None,
        SwitchOutcome::Exited(Some(code)) => Some(
            "bootc switch exited with code "@ + signed_decimal(code as int),
        ),
        SwitchOutcome::Exited(None) => Some(
            "bootc switch exited with code "@ + signed_decimal(-1),
        ),
    }
}

/// Whether switching succeeded, or what went wrong.
pub fn switch_result(outcome: &SwitchOutcome) -> (res: Result<(), String>)
    ensures
        match res {
            Ok(_) => switch_error(*outcome) is None,
            Err(text) => switch_error(*outcome) == Some(text@),
        },
{
    match outcome {
        SwitchOutcome::NotRun(reason) => {
            let mut text: String = "Failed to run bootc switch: ".to_owned();
            text.append(reason.as_str());
            Err(text)
        },
        SwitchOutcome::Exited(code) => {
            let number: i64 = match code {
                Some(n) => *n as i64,
                None => -1,
            };
            if number == 0 {
                Ok(())
            } else {
                let mut text: String = "bootc switch exited with code ".to_owned();
                text.append(i64_text(number).as_str());
                Err(text)
            }
        },
    }
}

/// The image whose builds are made up where the running one is not known.
pub open spec fn example_client() -> ClientView {
    ClientView {
        registry: "ghcr.io"@,
        org: "projectbluefin"@,
        image: "dakota"@,
        stream: "latest"@,
    }
}

/// A made-up build.
pub open spec fn mock_version(
    client: ClientView,
    today: CalendarDate,
    offset: int,
    number: int,
) -> ImageVersionView {
    let date = days_earlier(today, offset);
    let tag = "latest-"@ + compact_date(date);
    ImageVersionView {
        date,
        full_ref: client.reference(client.image, tag),
        version: tag,
        kernel: "6.12."@ + decimal(number as nat) + "-200.fc42.x86_64"@,
        revision: hexadecimal((0xdeadbe00 + number) as nat, 8),
        created: Timestamp { date, hour: 4, minute: 30, second: 0, nanosecond: 0 },
    }
}

/// The made-up builds from an offset in days on: one every two days, and after each
/// third one a day more.
pub open spec fn mock_builds(
    client: ClientView,
    today: CalendarDate,
    offset: int,
    number: int,
) -> Seq<ImageVersionView>
    decreases 34 - offset,
{
    if offset > 30 {
        Seq::empty()
    } else {
        seq![mock_version(client, today, offset, number)] + mock_builds(
            client,
            today,
            offset + if number % 3 == 0 {
                3int
            } else {
                2
            },
            number + 1,
        )
    }
}

/// Made-up builds of the last thirty days, the earliest first, of the detected image or
/// of an example.
pub fn generate_mock_versions(client: &Option<RegistryClient>, today: CalendarDate) -> (res: Vec<
    ImageVersion,
>)
    requires
        today.wf(),
        has_days_earlier(today, 30),
    ensures
        version_views(res@) == oldest_versions_first(
            mock_builds(
                match optional_client(*client) {
                    Some(c) => c,
                    None => example_client(),
                },
                today,
                2,
                1,
            ),
        ),
{
    let example = RegistryClient::new("ghcr.io", "projectbluefin", "dakota", "latest");
    let from: &RegistryClient = match client {
        Some(c) => c,
        None => &example,
    };
    let ghost all = mock_builds(from@, today, 2, 1);
    proof {
        lemma_day_number_bound(today);
    }
    let mut list: Vec<ImageVersion> = Vec::new();
    let mut offset: i64 = 2;
    let mut number: u32 = 1;
    assert(version_views(list@) + mock_builds(from@, today, 2, 1) =~= all);
    while offset <= 30
        invariant
            2 <= offset <= 33,
            1 <= number <= offset - 1,
            today.wf(),
            has_days_earlier(today, 30),
            has_days_earlier(today, 0),
            version_views(list@) + mock_builds(from@, today, offset as int, number as int) == all,
        decreases 33 - offset,
    {
        let ghost before = list@;
        let date = earlier(today, offset);
        let mut tag: String = "latest-".to_owned();
        tag.append(date.compact().as_str());
        let full_ref: String = from.full_ref(from.image(), tag.as_str());
        let mut kernel: String = "6.12.".to_owned();
        kernel.append(u64_text(number as u64).as_str());
        kernel.append("-200.fc42.x86_64");
        list.push(
            ImageVersion {
                date,
                full_ref,
                version: tag,
                kernel,
                revision: hex_text(0xdeadbe00 + number),
                created: date.at(4, 30),
            },
        );
        proof {
            let v = mock_version(from@, today, offset as int, number as int);
            let rest = mock_builds(
                from@,
                today,
                offset + if number % 3 == 0 {
                    3int
                } else {
                    2
                },
                number + 1,
            );
            assert(list@.last()@ =~= v);
            assert(version_views(list@) =~= version_views(before).push(v));
            assert(version_views(before).push(v) + rest =~= version_views(before) + (seq![v]
                + rest));
        }
        offset = offset + if number % 3 == 0 {
            3
        } else {
            2
        };
        number = number + 1;
    }
    assert(version_views(list@) + Seq::empty() =~= version_views(list@));
    sort_oldest_first(&list)
}

/// What fetching the builds has come to.
#[derive(Debug, Clone, Copy, PartialEq, Eq, Structural)]
pub enum FetchProgress {
    /// Nothing is known yet.
    Waiting,
    /// The builds are there.
    Loaded,
    /// The running image is not known.
    NotDetected,
    /// The builds could not be fetched.
    Failed,
}

/// What the dialog does next.
#[derive(Debug, Clone, Copy)]
pub enum FetchStep {
    /// Look again later.
    KeepWaiting,
    /// Show the builds.
    ShowBuilds,
    /// Show this error.
    ShowError(&'static str),
}

/// How long the dialog waits for the builds, in milliseconds.
pub const FETCH_LIMIT_MS: u64 = 20000;

/// What a step of the dialog comes to.
pub enum FetchAnswer {
    Waiting,
    Builds,
    Failure(Seq<char>),
}

/// What the dialog does when it has waited so many milliseconds.
pub open spec fn fetch_answer(progress: FetchProgress, waited_ms: int) -> FetchAnswer {
    match progress {
        FetchProgress::Loaded => FetchAnswer::Builds,
        FetchProgress::NotDetected => FetchAnswer::Failure(
            "Could not detect the current image. Is bootc installed and managing this system?"@,
        ),
        FetchProgress::Failed => FetchAnswer::Failure(
            "Check your internet connection and try again."@,
        ),
        FetchProgress::Waiting => if waited_ms > FETCH_LIMIT_MS {
            FetchAnswer::Failure("Check your internet connection and try again."@)
        } else {
            FetchAnswer::Waiting
        },
    }
}

/// What the dialog does when it has waited so many milliseconds: it gives up after a
/// while, unless there is an answer.
pub fn fetch_step(progress: FetchProgress, waited_ms: u64) -> (res: FetchStep)
    ensures
        match res {
            FetchStep::KeepWaiting => fetch_answer(progress, waited_ms as int) is Waiting,
            FetchStep::ShowBuilds => fetch_answer(progress, waited_ms as int) is Builds,
            FetchStep::ShowError(text) => fetch_answer(progress, waited_ms as int)
                == FetchAnswer::Failure(text@),
        },
{
    match progress {
        FetchProgress::Loaded => FetchStep::ShowBuilds,
        FetchProgress::NotDetected => FetchStep::ShowError(
            "Could not detect the current image. Is bootc installed and managing this system?",
        ),
        FetchProgress::Failed => FetchStep::ShowError(
            "Check your internet connection and try again.",
        ),
        FetchProgress::Waiting => if waited_ms > FETCH_LIMIT_MS {
            FetchStep::ShowError("Check your internet connection and try again.")
        } else {
            FetchStep::KeepWaiting
        },
    }
}

/// A made-up build is tagged as a build of the latest stream of its day.
pub proof fn law_mock_versions_recognised(
    client: ClientView,
    today: CalendarDate,
    offset: int,
    number: int,
)
    requires
        days_earlier(today, offset).wf(),
        0 <= days_earlier(today, offset).year <= 9999,
    ensures
        ({
            let v = mock_version(client, today, offset, number);
            build_day(v.version, "latest"@) == Some(v.date) && stream_of(v.version) == Some(
                "latest"@,
            )
        }),
{
    let date = days_earlier(today, offset);
    reveal_strlit("latest");
    reveal_strlit("latest-");
    assert("latest-"@ =~= "latest"@.push('-'));
    law_compact_round_trip(date);
    law_own_builds_recognised("latest"@, "latest"@, date, seq!['1']);
    law_forms_agree("latest"@, compact_date(date), seq!['1']);
}

proof fn lemma_days_earlier(today: CalendarDate, days: int)
    requires
        today.wf(),
        0 <= days <= 30,
        has_days_earlier(today, 30),
    ensures
        days_earlier(today, days).wf(),
        days_earlier(today, days).day_number() == today.day_number() - days,
{
    lemma_day_number_bound(today);
    law_days_without_gaps(today.day_number() - days);
}

proof fn lemma_mock_builds(client: ClientView, today: CalendarDate, offset: int, number: int)
    requires
        today.wf(),
        has_days_earlier(today, 30),
        offset >= 2,
    ensures
        ({
            let list = mock_builds(client, today, offset, number);
            &&& forall|i: int|
                0 <= i < list.len() ==> (#[trigger] list[i]).date.wf() && today.day_number() - 30
                    <= list[i].date.day_number() <= today.day_number() - offset
            &&& forall|i: int, j: int|
                0 <= i < j < list.len() ==> (#[trigger] list[i]).date.day_number() > (
                #[trigger] list[j]).date.day_number()
        }),
    decreases 34 - offset,
{
    if offset <= 30 {
        let next = offset + if number % 3 == 0 {
            3int
        } else {
            2
        };
        lemma_days_earlier(today, offset);
        lemma_mock_builds(client, today, next, number + 1);
        let list = mock_builds(client, today, offset, number);
        let rest = mock_builds(client, today, next, number + 1);
        assert forall|i: int| 0 <= i < list.len() implies (#[trigger] list[i]).date.wf()
            && today.day_number() - 30 <= list[i].date.day_number() <= today.day_number()
            - offset by {
            if i > 0 {
                assert(list[i] == rest[i - 1]);
            }
        }
        assert forall|i: int, j: int| 0 <= i < j < list.len() implies (
        #[trigger] list[i]).date.day_number() > (#[trigger] list[j]).date.day_number() by {
            assert(list[j] == rest[j - 1]);
            if i > 0 {
                assert(list[i] == rest[i - 1]);
            }
        }
    }
}

/// The made-up builds are of different days of the last thirty, the earliest first.
pub proof fn law_mock_versions_window(client: ClientView, today: CalendarDate)
    requires
        today.wf(),
        has_days_earlier(today, 30),
    ensures
        ({
            let list = oldest_versions_first(mock_builds(client, today, 2, 1));
            &&& forall|i: int|
                0 <= i < list.len() ==> (#[trigger] list[i]).date.wf() && today.day_number() - 30
                    <= list[i].date.day_number() <= today.day_number()
            &&& forall|i: int, j: int|
                0 <= i < j < list.len() ==> (#[trigger] list[i]).date.day_number() < (
                #[trigger] list[j]).date.day_number()
        }),
{
    let builds = mock_builds(client, today, 2, 1);
    let list = oldest_versions_first(builds);
    let keys = day_keys(builds);
    let order = sorted_positions(builds.len(), by_key(keys));
    lemma_mock_builds(client, today, 2, 1);
    law_arranged_by_key(builds, keys);
    assert forall|i: int| 0 <= i < list.len() implies (#[trigger] list[i]).date.wf()
        && today.day_number() - 30 <= list[i].date.day_number() <= today.day_number() by {
        assert(list[i] == builds[order[i]]);
    }
    assert forall|i: int, j: int| 0 <= i < j < list.len() implies (
    #[trigger] list[i]).date.day_number() < (#[trigger] list[j]).date.day_number() by {
        let a = builds[order[i]];
        let b = builds[order[j]];
        assert(list[i] == a && list[j] == b);
        assert(keys[order[i]] == a.date.spec_key() && keys[order[j]] == b.date.spec_key());
        assert(keys[order[i]] <= keys[order[j]]);
        law_key_orders_days(a.date, b.date);
    }
}

/// The next month can be shown up to the month of today.
pub proof fn law_month_follows(displayed: CalendarDate, today: CalendarDate)
    requires
        displayed.wf(),
        today.wf(),
        displayed.day == 1,
    ensures
        month_follows(displayed, today) <==> displayed.year * 12 + displayed.month < today.year
            * 12 + today.month,
{
}

/// What the calendar tells of a day: whether a build has it, whether the current build
/// does, and whether it is picked or today.
pub proof fn law_day_cell(
    date: CalendarDate,
    list: Seq<ImageVersionView>,
    current: Option<CalendarDate>,
    selected: Option<CalendarDate>,
    today: CalendarDate,
)
    ensures
        ({
            let cell = day_cell(date, list, current, selected, today);
            &&& cell.date == date
            &&& cell.available <==> exists|i: int|
                0 <= i < list.len() && (#[trigger] list[i]).date == date
            &&& cell.current <==> current == Some(date)
            &&& cell.selected <==> selected == Some(date)
            &&& cell.today <==> date == today
        }),
{
}

/// A place of the calendar is empty exactly where it lies before the first day of the
/// month or behind the last one; else it shows a day of the month. The very last month
/// that a date can have is empty.
pub proof fn law_empty_places(
    displayed: CalendarDate,
    slot: int,
    list: Seq<ImageVersionView>,
    current: Option<CalendarDate>,
    selected: Option<CalendarDate>,
    today: CalendarDate,
)
    requires
        displayed.wf(),
    ensures
        displayed.year == MAX_YEAR && displayed.month == 12 ==> cell_at(
            displayed,
            slot,
            list,
            current,
            selected,
            today,
        ) is None,
        displayed.year < MAX_YEAR || displayed.month < 12 ==> ({
            let cell = cell_at(displayed, slot, list, current, selected, today);
            let lead = weekday_of(displayed);
            let days = month_days(displayed.year as int, displayed.month as int);
            &&& cell is None <==> slot < lead || slot >= lead + days
            &&& cell matches Some(c) ==> c.date.year == displayed.year && c.date.month
                == displayed.month && c.date.day == slot - lead + 1
        }),
{
}

/// The current build is the last of the list.
pub proof fn law_current_day(list: Seq<ImageVersionView>, newest: ImageVersionView)
    ensures
        current_day(list.push(newest)) == Some(newest.date),
        current_day(Seq::empty()) is None,
{
}

/// Clicking a day picks it, and clicking it again picks none.
pub proof fn law_clicks(selected: Option<CalendarDate>, clicked: CalendarDate)
    ensures
        selected != Some(clicked) ==> toggled(selected, clicked) == Some(clicked),
        toggled(Some(clicked), clicked) is None,
{
}

/// The current build is marked as installed; every other one is offered by its day. A
/// build without a commit shows a dash.
pub proof fn law_build_labels(date: CalendarDate, other: CalendarDate, revision: Seq<char>)
    ensures
        action_label(date, Some(date)) == "Currently Installed"@,
        date != other ==> action_label(date, Some(other)) == "Rebase to "@ + short_date(date)
            + "…"@,
        action_label(date, None) == "Rebase to "@ + short_date(date) + "…"@,
        revision.len() > 0 ==> commit_label(revision) == revision,
        revision.len() == 0 ==> commit_label(revision) == "—"@,
{
}

/// The question names the day and the version of the build.
pub proof fn law_confirm_question(date: CalendarDate, version: Seq<char>)
    ensures
        confirm_question(date, version) == "Your system will be rebased to the "@ + long_date(date)
            + " build (version "@ + version
            + ").\n\nThis requires a restart to take effect and will re-download the full image."@,
{
}

/// Switching succeeded exactly where the command ended with 0. Otherwise it is said why it
/// could not be run, or with which code it ended, which is -1 where it has none.
pub proof fn law_switch_errors(outcome: SwitchOutcome)
    ensures
        switch_error(outcome) is None <==> outcome == SwitchOutcome::Exited(Some(0i32)),
        outcome matches SwitchOutcome::NotRun(reason) ==> switch_error(outcome) == Some(
            "Failed to run bootc switch: "@ + reason@,
        ),
        outcome matches SwitchOutcome::Exited(Some(code)) ==> (code != 0 ==> switch_error(outcome)
            == Some("bootc switch exited with code "@ + signed_decimal(code as int))),
        outcome == SwitchOutcome::Exited(None) ==> switch_error(outcome) == Some(
            "bootc switch exited with code "@ + "-1"@,
        ),
{
    reveal_strlit("-1");
    assert(decimal(1) =~= seq!['1']);
    assert(signed_decimal(-1) =~= "-1"@);
}

/// A made-up build belongs to the given image. Its tag names its day, it was built in the
/// early morning of that day, and its number is in its kernel and its commit.
pub proof fn law_mock_version(client: ClientView, today: CalendarDate, offset: int, number: int)
    requires
        today.wf(),
        0 <= offset <= 30,
        has_days_earlier(today, 30),
        0 <= number < 0x100,
    ensures
        ({
            let v = mock_version(client, today, offset, number);
            &&& v.date.wf() && v.date.day_number() == today.day_number() - offset
            &&& v.version == "latest-"@ + compact_date(v.date)
            &&& v.full_ref == client.reference(client.image, v.version)
            &&& v.kernel == "6.12."@ + decimal(number as nat) + "-200.fc42.x86_64"@
            &&& v.revision == hexadecimal((3735928320 + number) as nat, 8)
            &&& v.created == (Timestamp {
                date: v.date,
                hour: 4,
                minute: 30,
                second: 0,
                nanosecond: 0,
            })
        }),
{
    lemma_days_earlier(today, offset);
}

/// The newest made-up build is two days old. From each to the next older one it is two
/// days, or three where its number is a multiple of three.
pub proof fn law_mock_spacing(client: ClientView, today: CalendarDate, offset: int, number: int)
    requires
        today.wf(),
        has_days_earlier(today, 30),
        0 <= offset <= 30,
    ensures
        ({
            let list = mock_builds(client, today, offset, number);
            let gap: int = if number % 3 == 0 {
                3
            } else {
                2
            };
            &&& list.len() > 0
            &&& list[0] == mock_version(client, today, offset, number)
            &&& list[0].date.day_number() == today.day_number() - offset
            &&& offset + gap <= 30 ==> list.drop_first() == mock_builds(
                client,
                today,
                offset + gap,
                number + 1,
            )
            &&& offset + gap > 30 ==> list.len() == 1
        }),
{
    lemma_days_earlier(today, offset);
    let gap: int = if number % 3 == 0 {
        3
    } else {
        2
    };
    let list = mock_builds(client, today, offset, number);
    let rest = mock_builds(client, today, offset + gap, number + 1);
    assert(list.drop_first() =~= rest);
}

/// Builds that are there are shown, however long it took. The dialog waits twenty seconds
/// and then gives up; it gives up at once where fetching failed or the image is not known.
pub proof fn law_fetch_answers(progress: FetchProgress, waited_ms: int)
    ensures
        fetch_answer(FetchProgress::Loaded, waited_ms) is Builds,
        fetch_answer(FetchProgress::Waiting, waited_ms) is Waiting <==> waited_ms <= 20000,
        waited_ms > 20000 ==> fetch_answer(FetchProgress::Waiting, waited_ms)
            == FetchAnswer::Failure("Check your internet connection and try again."@),
        fetch_answer(FetchProgress::Failed, waited_ms) == FetchAnswer::Failure(
            "Check your internet connection and try again."@,
        ),
        fetch_answer(FetchProgress::NotDetected, waited_ms) == FetchAnswer::Failure(
            "Could not detect the current image. Is bootc installed and managing this system?"@,
        ),
        fetch_answer(progress, waited_ms) is Builds ==> progress == FetchProgress::Loaded,
{
}

/// The image whose builds are made up where none is known.
pub proof fn law_example_client()
    ensures
        example_client().registry == "ghcr.io"@,
        example_client().org == "projectbluefin"@,
        example_client().image == "dakota"@,
        example_client().stream == "latest"@,
{
}

} // verus!
