//! Dated image tags.
//!
//! A dated build is tagged with the name of its stream and the day it was built:
//! `stable-daily-43.20260222`, `lts-hwe-20260224`. A build number may follow:
//! `testing-43.20260308.1`. Streams without a name of their own tag their builds
//! with the bare day: `20260114`.

use crate::date::{
    compact_date, compact_value, law_compact_reads_itself, law_compact_round_trip, parse_compact,
    CalendarDate,
};
use crate::text::{
    all_digits, begins_with, digits_between, is_digit, lemma_rfind, rfind, rfind_char, starts_with,
    str_eq, to_chars,
};
use vstd::prelude::*;

verus! {

/// The tag ends in a build number: a dot and one to four digits, behind the eight
/// digits of a day.
pub open spec fn has_build_number(tag: Seq<char>) -> bool {
    let i = rfind(tag, '.');
    &&& i >= 8
    &&& 1 <= tag.len() - i - 1 <= 4
    &&& all_digits(tag.subrange(i + 1, tag.len() as int))
    &&& all_digits(tag.subrange(i - 8, i))
}

/// The tag without its build number.
pub open spec fn base(tag: Seq<char>) -> Seq<char> {
    if has_build_number(tag) {
        tag.take(rfind(tag, '.'))
    } else {
        tag
    }
}

/// The text ends in a dot or a dash and the eight digits of a day.
pub open spec fn ends_in_day(s: Seq<char>) -> bool {
    &&& s.len() >= 9
    &&& s[s.len() - 9] == '.' || s[s.len() - 9] == '-'
    &&& all_digits(s.subrange(s.len() - 8, s.len() as int))
}

/// The eight digits at the end.
pub open spec fn day_part(s: Seq<char>) -> Seq<char> {
    s.subrange(s.len() - 8, s.len() as int)
}

/// What stands before the day and its separator.
pub open spec fn stem(s: Seq<char>) -> Seq<char> {
    s.take(s.len() - 9)
}

/// The stream that a tag is qualified with, where the tag ends in a day.
pub open spec fn stream_of(tag: Seq<char>) -> Option<Seq<char>> {
    if ends_in_day(base(tag)) {
        Some(stem(base(tag)))
    } else {
        None
    }
}

/// `name` is the stream, or the stream qualified further.
pub open spec fn in_stream(name: Seq<char>, stream: Seq<char>) -> bool {
    name == stream || begins_with(name, stream.push('.')) || begins_with(name, stream.push('-'))
}

/// The stream tags its builds with the bare day.
pub open spec fn implicit_stream(stream: Seq<char>) -> bool {
    stream == "latest"@ || stream.len() == 0
}

/// The day of a build of `stream`, where the tag belongs to such a build.
pub open spec fn build_day(tag: Seq<char>, stream: Seq<char>) -> Option<CalendarDate> {
    if implicit_stream(stream) && tag.len() == 8 && all_digits(tag) {
        compact_value(tag)
    } else if ends_in_day(base(tag)) && in_stream(stem(base(tag)), stream) {
        compact_value(day_part(base(tag)))
    } else {
        None
    }
}

/// The length of the tag without its build number.
fn base_len(tag: &str, chars: &Vec<char>) -> (res: usize)
    requires
        chars@ == tag@,
    ensures
        res <= tag@.len(),
        base(tag@) == tag@.take(res as int),
{
    proof {
        lemma_rfind(tag@, '.');
        assert(tag@.take(tag@.len() as int) =~= tag@);
    }
    let n: usize = chars.len();
    match rfind_char(tag, '.') {
        Some(i) => {
            let tail: usize = n - i - 1;
            if i >= 8 && 1 <= tail && tail <= 4 && digits_between(chars, i + 1, n)
                && digits_between(chars, i - 8, i) {
                i
            } else {
                n
            }
        },
        None => n,
    }
}

/// The length of the stem, where the first `n` characters end in a day.
pub(crate) fn stem_len(chars: &Vec<char>, n: usize) -> (res: Option<usize>)
    requires
        n <= chars@.len(),
    ensures
        match res {
            Some(k) => ends_in_day(chars@.take(n as int)) && k + 9 == n,
            None => !ends_in_day(chars@.take(n as int)),
        },
{
    if n < 9 {
        return None;
    }
    let k: usize = n - 9;
    let c = chars[k];
    assert(chars@.take(n as int).subrange(n - 8, n as int) =~= chars@.subrange(n - 8, n as int));
    if (c == '.' || c == '-') && digits_between(chars, n - 8, n) {
        Some(k)
    } else {
        None
    }
}

/// The stream of a tag: what is left without the day at its end, its separator,
/// and the build number behind it. Nothing where the tag does not end in a day.
pub fn strip_date_suffix(tag: &str) -> (res: Option<String>)
    ensures
        match res {
            Some(s) => stream_of(tag@) == Some(s@),
            None => stream_of(tag@) is None,
        },
{
    let chars = to_chars(tag);
    let n: usize = base_len(tag, &chars);
    match stem_len(&chars, n) {
        Some(k) => {
            assert(tag@.subrange(0, k as int) =~= stem(base(tag@)));
            Some(tag.substring_char(0, k).to_owned())
        },
        None => None,
    }
}

/// The day on which the tagged build of `stream` was made; nothing where the tag
/// does not name a build of that stream, or not a day that exists.
pub fn parse_dated_tag(tag: &str, stream: &str) -> (res: Option<CalendarDate>)
    ensures
        res == build_day(tag@, stream@),
        res matches Some(d) ==> d.wf(),
{
    let chars = to_chars(tag);
    let total: usize = chars.len();
    if (str_eq(stream, "latest") || to_chars(stream).len() == 0) && total == 8 {
        assert(tag@.subrange(0, 8) =~= tag@);
        if digits_between(&chars, 0, 8) {
            return parse_compact(tag);
        }
    }
    let n: usize = base_len(tag, &chars);
    match stem_len(&chars, n) {
        Some(k) => {
            assert(tag@.subrange(0, k as int) =~= stem(base(tag@)));
            assert(tag@.subrange(k + 1, n as int) =~= day_part(base(tag@)));
            let name = tag.substring_char(0, k);
            let mut dotted: String = stream.to_owned();
            dotted.append(".");
            let mut dashed: String = stream.to_owned();
            dashed.append("-");
            proof {
                reveal_strlit(".");
                reveal_strlit("-");
                assert(dotted@ =~= stream@.push('.'));
                assert(dashed@ =~= stream@.push('-'));
            }
            if str_eq(name, stream) || starts_with(name, dotted.as_str()) || starts_with(
                name,
                dashed.as_str(),
            ) {
                parse_compact(tag.substring_char(k + 1, n))
            } else {
                None
            }
        },
        None => None,
    }
}

/// Whether the tag is a bare day.
pub fn is_bare_day(tag: &str) -> (res: bool)
    ensures
        res == (compact_value(tag@) is Some),
{
    let chars = to_chars(tag);
    assert(tag@.subrange(0, tag@.len() as int) =~= tag@);
    chars.len() == 8 && digits_between(&chars, 0, 8) && parse_compact(tag).is_some()
}

/// A tag with a day at its end, in either form, with or without a build number,
/// gives back the stream before the day.
pub proof fn law_forms_agree(name: Seq<char>, day: Seq<char>, number: Seq<char>)
    requires
        day.len() == 8,
        all_digits(day),
        1 <= number.len() <= 4,
        all_digits(number),
    ensures
        stream_of(name.push('.') + day) == Some(name),
        stream_of(name.push('-') + day) == Some(name),
        stream_of(name.push('.') + day + seq!['.'] + number) == Some(name),
        stream_of(name.push('-') + day + seq!['.'] + number) == Some(name),
{
    lemma_plain_form(name, '.', day);
    lemma_plain_form(name, '-', day);
    lemma_numbered_form(name.push('.') + day, number);
    lemma_numbered_form(name.push('-') + day, number);
}

proof fn lemma_plain_form(name: Seq<char>, sep: char, day: Seq<char>)
    requires
        sep == '.' || sep == '-',
        day.len() == 8,
        all_digits(day),
    ensures
        base(name.push(sep) + day) == name.push(sep) + day,
        ends_in_day(name.push(sep) + day),
        stem(name.push(sep) + day) == name,
        day_part(name.push(sep) + day) == day,
        stream_of(name.push(sep) + day) == Some(name),
{
    let tag = name.push(sep) + day;
    lemma_rfind(tag, '.');
    let i = rfind(tag, '.');
    assert(stem(tag) =~= name);
    assert(day_part(tag) =~= day);
    if has_build_number(tag) {
        let tail = tag.subrange(i + 1, tag.len() as int);
        assert(tag[i] == '.');
        assert(i >= tag.len() - 5);
        assert(tag[i] == day[i - (tag.len() - 8)]);
        assert(is_digit(day[i - (tag.len() - 8)]));
    }
}

proof fn lemma_numbered_form(dated: Seq<char>, number: Seq<char>)
    requires
        dated.len() >= 9,
        ends_in_day(dated),
        1 <= number.len() <= 4,
        all_digits(number),
    ensures
        base(dated + seq!['.'] + number) == dated,
{
    let tag = dated + seq!['.'] + number;
    lemma_rfind(tag, '.');
    let i = rfind(tag, '.');
    let n = dated.len() as int;
    assert(tag[n] == '.');
    assert(i == n) by {
        if i > n {
            assert(tag[i] == number[i - n - 1]);
            assert(is_digit(number[i - n - 1]));
        }
    }
    assert(tag.subrange(i + 1, tag.len() as int) =~= number);
    assert(tag.subrange(i - 8, i) =~= dated.subrange(n - 8, n));
    assert(tag.take(i) =~= dated);
}

/// A build of a stream is recognised under that stream, whichever separator and
/// whatever build number its tag has; a build of a further qualified stream is
/// too.
pub proof fn law_own_builds_recognised(
    stream: Seq<char>,
    name: Seq<char>,
    d: CalendarDate,
    number: Seq<char>,
)
    requires
        in_stream(name, stream),
        d.wf(),
        0 <= d.year <= 9999,
        1 <= number.len() <= 4,
        all_digits(number),
    ensures
        build_day(name.push('.') + compact_date(d), stream) == Some(d),
        build_day(name.push('-') + compact_date(d), stream) == Some(d),
        build_day(name.push('.') + compact_date(d) + seq!['.'] + number, stream) == Some(d),
        build_day(name.push('-') + compact_date(d) + seq!['.'] + number, stream) == Some(d),
{
    law_compact_round_trip(d);
    let day = compact_date(d);
    lemma_plain_form(name, '.', day);
    lemma_plain_form(name, '-', day);
    lemma_numbered_form(name.push('.') + day, number);
    lemma_numbered_form(name.push('-') + day, number);
}

/// A tag with a build day under some stream either is the bare day of an implicit
/// stream, or has a stream of its own, which lies in the one asked for.
pub proof fn law_builds_stay_in_stream(tag: Seq<char>, stream: Seq<char>)
    requires
        build_day(tag, stream) is Some,
    ensures
        stream_of(tag) is None ==> implicit_stream(stream) && tag.len() == 8 && all_digits(tag),
        stream_of(tag) matches Some(name) ==> in_stream(name, stream),
{
    if tag.len() == 8 {
        lemma_rfind(tag, '.');
    }
}

/// A bare day belongs to the implicit streams only.
pub proof fn law_bare_day(d: CalendarDate, stream: Seq<char>)
    requires
        d.wf(),
        0 <= d.year <= 9999,
    ensures
        build_day(compact_date(d), stream) == if stream == "latest"@ || stream.len() == 0 {
            Some(d)
        } else {
            None
        },
        stream_of(compact_date(d)) is None,
{
    law_compact_round_trip(d);
    lemma_rfind(compact_date(d), '.');
}

/// A qualified tag with a day is a build of a stream exactly where its name is the
/// stream, or goes on behind the stream with a dot or a dash; then its day is the day of
/// the build. This holds with and without a build number.
pub proof fn law_build_needs_own_stream(
    name: Seq<char>,
    sep: char,
    d: CalendarDate,
    number: Seq<char>,
    stream: Seq<char>,
)
    requires
        sep == '.' || sep == '-',
        d.wf(),
        0 <= d.year <= 9999,
        1 <= number.len() <= 4,
        all_digits(number),
    ensures
        ({
            let belongs = name == stream || (name.len() > stream.len() && name.take(
                stream.len() as int,
            ) == stream && (name[stream.len() as int] == '.' || name[stream.len() as int] == '-'));
            let plain = name.push(sep) + compact_date(d);
            let numbered = plain + seq!['.'] + number;
            &&& build_day(plain, stream) == if belongs {
                Some(d)
            } else {
                None
            }
            &&& build_day(numbered, stream) == if belongs {
                Some(d)
            } else {
                None
            }
        }),
{
    law_compact_round_trip(d);
    let day = compact_date(d);
    let n = stream.len() as int;
    lemma_plain_form(name, sep, day);
    lemma_numbered_form(name.push(sep) + day, number);
    if name.len() > n {
        assert(name.take(n + 1) =~= name.take(n).push(name[n]));
        assert(name.take(n + 1).take(n) =~= name.take(n));
        assert(stream.push('.').take(n) =~= stream);
        assert(stream.push('-').take(n) =~= stream);
        assert(stream.push('.')[n] == '.');
        assert(stream.push('-')[n] == '-');
    }
}

/// A build of a stream has one of three forms: the bare day, for the stream `latest` and
/// the empty stream; a name and the day; or a name, the day and a build number of one to
/// four digits. The name is the stream or goes on behind it with a dot or a dash.
pub proof fn law_builds_have_a_form(tag: Seq<char>, stream: Seq<char>)
    requires
        build_day(tag, stream) is Some,
    ensures
        ({
            let day = compact_date(build_day(tag, stream).unwrap());
            ||| tag == day && (stream == "latest"@ || stream.len() == 0)
            ||| exists|name: Seq<char>, sep: char, number: Seq<char>|
                #![trigger name.push(sep), all_digits(number)]
                {
                    &&& sep == '.' || sep == '-'
                    &&& all_digits(number) && number.len() <= 4
                    &&& tag == name.push(sep) + day + if number.len() == 0 {
                        Seq::empty()
                    } else {
                        seq!['.'] + number
                    }
                    &&& name == stream || (name.len() > stream.len() && name.take(
                        stream.len() as int,
                    ) == stream && (name[stream.len() as int] == '.' || name[stream.len() as int]
                        == '-'))
                }
        }),
{
    let d = build_day(tag, stream).unwrap();
    if implicit_stream(stream) && tag.len() == 8 && all_digits(tag) {
        law_compact_reads_itself(tag);
    } else {
        let b = base(tag);
        law_compact_reads_itself(day_part(b));
        let day = compact_date(d);
        let name = stem(b);
        let sep = b[b.len() - 9];
        let n = stream.len() as int;
        assert(b =~= name.push(sep) + day);
        let number = if has_build_number(tag) {
            tag.subrange(rfind(tag, '.') + 1, tag.len() as int)
        } else {
            Seq::empty()
        };
        lemma_rfind(tag, '.');
        if has_build_number(tag) {
            assert(tag =~= name.push(sep) + day + (seq!['.'] + number));
        } else {
            assert(tag =~= name.push(sep) + day + Seq::<char>::empty());
        }
        if name != stream {
            if begins_with(name, stream.push('.')) {
                assert(name.take(n) =~= name.take(n + 1).take(n));
                assert(stream.push('.').take(n) =~= stream);
                assert(name[n] == name.take(n + 1)[n]);
            } else {
                assert(name.take(n) =~= name.take(n + 1).take(n));
                assert(stream.push('-').take(n) =~= stream);
                assert(name[n] == name.take(n + 1)[n]);
            }
        }
        assert(name.push(sep) == name.push(sep) && all_digits(number));
    }
}

/// A day belongs to a tag only behind a dot or a dash: behind anything else the tag has
/// no stream and is no build.
pub proof fn law_other_separators(name: Seq<char>, sep: char, day: Seq<char>, stream: Seq<char>)
    requires
        sep != '.' && sep != '-',
        day.len() == 8,
        all_digits(day),
    ensures
        stream_of(name.push(sep) + day) is None,
        build_day(name.push(sep) + day, stream) is None,
{
    let tag = name.push(sep) + day;
    lemma_rfind(tag, '.');
    let i = rfind(tag, '.');
    if i >= name.len() {
        if i > name.len() {
            assert(is_digit(day[i - name.len() - 1]));
        }
    }
    assert(base(tag) == tag);
    assert(tag[tag.len() - 9] == sep);
}

/// More than four digits behind the day are no build number. Unless they are a day
/// themselves, the tag has no stream and is no build.
pub proof fn law_long_numbers(name: Seq<char>, day: Seq<char>, number: Seq<char>, stream: Seq<char>)
    requires
        day.len() == 8,
        all_digits(day),
        number.len() > 4,
        number.len() != 8,
        all_digits(number),
    ensures
        stream_of(name + day + seq!['.'] + number) is None,
        build_day(name + day + seq!['.'] + number, stream) is None,
{
    let tag = name + day + seq!['.'] + number;
    let n = (name + day).len() as int;
    lemma_rfind(tag, '.');
    let i = rfind(tag, '.');
    assert(tag[n] == '.');
    if i > n {
        assert(tag[i] == number[i - n - 1]);
        assert(is_digit(number[i - n - 1]));
    }
    assert(base(tag) == tag);
    let last = tag.subrange(tag.len() - 8, tag.len() as int);
    if number.len() < 8 {
        assert(last[n - (tag.len() - 8)] == '.');
        assert(!is_digit(last[n - (tag.len() - 8)]));
    } else {
        assert(tag[tag.len() - 9] == number[number.len() - 9]);
        assert(is_digit(number[number.len() - 9]));
    }
}

/// A tag without digits at its end has no stream before a day and is no build.
pub proof fn law_tags_without_day(tag: Seq<char>, stream: Seq<char>)
    requires
        tag.len() == 0 || !is_digit(tag.last()),
    ensures
        stream_of(tag) is None,
        build_day(tag, stream) is None,
{
    if tag.len() > 0 {
        lemma_rfind(tag, '.');
        let i = rfind(tag, '.');
        if has_build_number(tag) {
            let tail = tag.subrange(i + 1, tag.len() as int);
            assert(is_digit(tail[tail.len() - 1]));
        }
        if tag.len() >= 9 {
            let last = tag.subrange(tag.len() - 8, tag.len() as int);
            if all_digits(last) {
                assert(is_digit(last[7]));
            }
        }
        if tag.len() == 8 && all_digits(tag) {
            assert(is_digit(tag[7]));
        }
    }
}

} // verus!
