//! String operations on characters, each with an exact contract.
//!
//! A string is seen as the sequence of its characters. Positions are character
//! positions, not byte offsets.

use vstd::prelude::*;
use vstd::utf8::*;

verus! {

/// The characters of `s`, one by one.
pub fn to_chars(s: &str) -> (res: Vec<char>)
    ensures
        res@ == s@,
{
    let mut out: Vec<char> = Vec::new();
    for c in it: s.chars()
        invariant
            it.seq() == s@,
            out@ == it.seq().take(it.index() as int),
    {
        out.push(c);
    }
    assert(out@ =~= s@);
    out
}

/// Whether two strings hold the same characters.
pub fn str_eq(a: &str, b: &str) -> (res: bool)
    ensures
        res == (a@ == b@),
{
    a.to_owned() == b.to_owned()
}

/// An ASCII decimal digit.
pub open spec fn is_digit(c: char) -> bool {
    '0' <= c && c <= '9'
}

/// Nothing but ASCII decimal digits.
pub open spec fn all_digits(s: Seq<char>) -> bool {
    forall|i: int| 0 <= i < s.len() ==> is_digit(#[trigger] s[i])
}

/// Whether the characters of `s` in `from..to` are all ASCII digits.
pub fn digits_between(s: &Vec<char>, from: usize, to: usize) -> (res: bool)
    requires
        from <= to <= s@.len(),
    ensures
        res == all_digits(s@.subrange(from as int, to as int)),
{
    let mut i: usize = from;
    while i < to
        invariant
            from <= i <= to <= s@.len(),
            forall|j: int| from <= j < i ==> is_digit(#[trigger] s@[j]),
        decreases to - i,
    {
        let c = s[i];
        if !('0' <= c && c <= '9') {
            assert(!is_digit(s@.subrange(from as int, to as int)[i - from]));
            return false;
        }
        i = i + 1;
    }
    true
}

/// Position of the first `c` in `s`, or -1.
pub open spec fn find(s: Seq<char>, c: char) -> int
    decreases s.len(),
{
    if s.len() == 0 {
        -1
    } else {
        let r = find(s.drop_last(), c);
        if r >= 0 {
            r
        } else if s.last() == c {
            s.len() - 1
        } else {
            -1
        }
    }
}

/// Position of the last `c` in `s`, or -1.
pub open spec fn rfind(s: Seq<char>, c: char) -> int
    decreases s.len(),
{
    if s.len() == 0 {
        -1
    } else if s.last() == c {
        s.len() - 1
    } else {
        rfind(s.drop_last(), c)
    }
}

/// `find` is the only position of `c` that no other one precedes.
pub proof fn lemma_find(s: Seq<char>, c: char)
    ensures
        -1 <= find(s, c) < s.len(),
        find(s, c) >= 0 <==> s.contains(c),
        find(s, c) >= 0 ==> s[find(s, c)] == c,
        forall|j: int| 0 <= j < s.len() && (find(s, c) < 0 || j < find(s, c)) ==> s[j] != c,
    decreases s.len(),
{
    if s.len() > 0 {
        lemma_find(s.drop_last(), c);
        let r = find(s.drop_last(), c);
        assert forall|j: int| 0 <= j < s.len() && (find(s, c) < 0 || j < find(s, c)) implies s[j]
            != c by {
            if j < s.len() - 1 {
                assert(s.drop_last()[j] == s[j]);
            }
        }
        if find(s, c) >= 0 {
            assert(s[find(s, c)] == c);
        }
    }
}

/// `rfind` is the only position of `c` that no other one follows.
pub proof fn lemma_rfind(s: Seq<char>, c: char)
    ensures
        -1 <= rfind(s, c) < s.len(),
        rfind(s, c) >= 0 <==> s.contains(c),
        rfind(s, c) >= 0 ==> s[rfind(s, c)] == c,
        forall|j: int| rfind(s, c) < j < s.len() ==> s[j] != c,
    decreases s.len(),
{
    if s.len() > 0 {
        lemma_rfind(s.drop_last(), c);
        assert forall|j: int| rfind(s, c) < j < s.len() implies s[j] != c by {
            if j < s.len() - 1 {
                assert(s.drop_last()[j] == s[j]);
            }
        }
        if rfind(s, c) >= 0 {
            assert(s[rfind(s, c)] == c);
        }
    }
}

/// Position of the first `c` in `s`.
pub fn find_char(s: &str, c: char) -> (res: Option<usize>)
    ensures
        match res {
            Some(i) => i == find(s@, c) && i < s@.len(),
            None => find(s@, c) < 0,
        },
{
    let chars = to_chars(s);
    let mut i: usize = 0;
    while i < chars.len()
        invariant
            chars@ == s@,
            i <= chars@.len(),
            find(s@.take(i as int), c) < 0,
        decreases chars@.len() - i,
    {
        proof {
            assert(s@.take(i + 1).drop_last() =~= s@.take(i as int));
        }
        if chars[i] == c {
            proof {
                lemma_find_prefix(s@, c, i + 1);
            }
            return Some(i);
        }
        i = i + 1;
    }
    assert(s@.take(i as int) =~= s@);
    None
}

proof fn lemma_find_prefix(s: Seq<char>, c: char, n: int)
    requires
        0 <= n <= s.len(),
        find(s.take(n), c) >= 0,
    ensures
        find(s, c) == find(s.take(n), c),
    decreases s.len(),
{
    if n < s.len() {
        assert(s.drop_last().take(n) =~= s.take(n));
        lemma_find_prefix(s.drop_last(), c, n);
    } else {
        assert(s.take(n) =~= s);
    }
}

/// Position of the last `c` in `s`.
pub fn rfind_char(s: &str, c: char) -> (res: Option<usize>)
    ensures
        match res {
            Some(i) => i == rfind(s@, c) && i < s@.len(),
            None => rfind(s@, c) < 0,
        },
{
    let chars = to_chars(s);
    let mut i: usize = chars.len();
    assert(s@.take(i as int) =~= s@);
    while i > 0
        invariant
            chars@ == s@,
            i <= chars@.len(),
            rfind(s@, c) == rfind(s@.take(i as int), c),
        decreases i,
    {
        proof {
            assert(s@.take(i as int).drop_last() =~= s@.take(i - 1));
        }
        if chars[i - 1] == c {
            return Some(i - 1);
        }
        i = i - 1;
    }
    None
}

/// The pieces of `s` between the occurrences of `sep`; one more piece than there
/// are occurrences.
pub open spec fn split(s: Seq<char>, sep: char) -> Seq<Seq<char>>
    decreases s.len(),
{
    if s.len() == 0 {
        seq![Seq::<char>::empty()]
    } else {
        let front = split(s.drop_last(), sep);
        if s.last() == sep {
            front.push(Seq::<char>::empty())
        } else {
            front.drop_last().push(front.last().push(s.last()))
        }
    }
}

/// The pieces joined again, with `sep` between two neighbours.
pub open spec fn join(parts: Seq<Seq<char>>, sep: Seq<char>) -> Seq<char>
    decreases parts.len(),
{
    if parts.len() == 0 {
        Seq::empty()
    } else if parts.len() == 1 {
        parts[0]
    } else {
        join(parts.drop_last(), sep) + sep + parts.last()
    }
}

/// The views of the strings of a list.
pub open spec fn views(parts: Seq<&str>) -> Seq<Seq<char>> {
    parts.map_values(|p: &str| p@)
}

/// The views of the owned strings of a list.
pub open spec fn owned_views(parts: Seq<String>) -> Seq<Seq<char>> {
    parts.map_values(|p: String| p@)
}

pub proof fn lemma_split_nonempty(s: Seq<char>, sep: char)
    ensures
        split(s, sep).len() >= 1,
    decreases s.len(),
{
    if s.len() > 0 {
        lemma_split_nonempty(s.drop_last(), sep);
    }
}

/// Joining the pieces of a string with the separator gives the string back.
pub proof fn law_join_split(s: Seq<char>, sep: char)
    ensures
        join(split(s, sep), seq![sep]) == s,
    decreases s.len(),
{
    if s.len() > 0 {
        let front = split(s.drop_last(), sep);
        law_join_split(s.drop_last(), sep);
        lemma_split_nonempty(s.drop_last(), sep);
        if s.last() == sep {
            assert(split(s, sep).drop_last() =~= front);
            assert(join(split(s, sep), seq![sep]) =~= s);
        } else {
            let all = split(s, sep);
            assert(all.drop_last() =~= front.drop_last());
            if front.len() == 1 {
                assert(join(all, seq![sep]) =~= s);
            } else {
                assert(join(all, seq![sep]) =~= join(front, seq![sep]).push(s.last()));
                assert(s =~= s.drop_last().push(s.last()));
            }
        }
    }
}

/// No piece of a split string holds the separator.
pub proof fn law_split_pieces_free(s: Seq<char>, sep: char, i: int)
    requires
        0 <= i < split(s, sep).len(),
    ensures
        !split(s, sep)[i].contains(sep),
    decreases s.len(),
{
    if s.len() > 0 {
        let front = split(s.drop_last(), sep);
        lemma_split_nonempty(s.drop_last(), sep);
        if s.last() == sep {
            if i < front.len() {
                law_split_pieces_free(s.drop_last(), sep, i);
            }
        } else {
            law_split_pieces_free(s.drop_last(), sep, i);
            if i == front.len() - 1 {
                let piece = front.last().push(s.last());
                assert(split(s, sep)[i] == piece);
                if piece.contains(sep) {
                    let k = choose|k: int| 0 <= k < piece.len() && piece[k] == sep;
                    assert(front.last()[k] == sep);
                }
            }
        }
    }
}

proof fn lemma_split_grows(front: Seq<char>, piece: Seq<char>, sep: char)
    requires
        !piece.contains(sep),
    ensures
        split(front.push(sep) + piece, sep) == split(front, sep).push(piece),
        split(piece, sep) == seq![piece],
    decreases piece.len(),
{
    let whole = front.push(sep) + piece;
    if piece.len() == 0 {
        assert(piece =~= Seq::empty());
        assert(whole =~= front.push(sep));
        assert(whole.drop_last() =~= front);
        assert(split(whole, sep) =~= split(front, sep).push(piece));
        assert(split(piece, sep) =~= seq![piece]);
    } else {
        let shorter = piece.drop_last();
        assert(piece.last() == piece[piece.len() - 1]);
        assert(piece.contains(piece.last()));
        assert(!shorter.contains(sep)) by {
            if shorter.contains(sep) {
                let k = choose|k: int| 0 <= k < shorter.len() && shorter[k] == sep;
                assert(piece[k] == sep);
            }
        }
        lemma_split_grows(front, shorter, sep);
        assert(whole.drop_last() =~= front.push(sep) + shorter);
        assert(whole.last() == piece.last());
        assert(shorter.push(piece.last()) =~= piece);
        assert(split(whole, sep) =~= split(front, sep).push(piece));
        assert(split(piece, sep) =~= seq![piece]);
    }
}

/// Joined pieces that do not hold the separator are split into the same pieces again.
pub proof fn law_split_join(pieces: Seq<Seq<char>>, sep: char)
    requires
        pieces.len() > 0,
        forall|i: int| 0 <= i < pieces.len() ==> !(#[trigger] pieces[i]).contains(sep),
    ensures
        split(join(pieces, seq![sep]), sep) == pieces,
    decreases pieces.len(),
{
    if pieces.len() == 1 {
        lemma_split_grows(Seq::empty(), pieces[0], sep);
        assert(pieces =~= seq![pieces[0]]);
    } else {
        let front = pieces.drop_last();
        assert forall|i: int| 0 <= i < front.len() implies !(#[trigger] front[i]).contains(
            sep,
        ) by {
            assert(front[i] == pieces[i]);
        }
        law_split_join(front, sep);
        assert(!pieces[pieces.len() - 1].contains(sep));
        lemma_split_grows(join(front, seq![sep]), pieces.last(), sep);
        assert(join(front, seq![sep]) + seq![sep] =~= join(front, seq![sep]).push(sep));
        assert(front.push(pieces.last()) =~= pieces);
    }
}

/// Splits `s` at every `sep`.
pub fn split_char<'a>(s: &'a str, sep: char) -> (res: Vec<&'a str>)
    ensures
        views(res@) == split(s@, sep),
{
    let chars = to_chars(s);
    let mut out: Vec<&'a str> = Vec::new();
    let mut start: usize = 0;
    let mut i: usize = 0;
    assert(s@.take(0) =~= Seq::<char>::empty());
    assert(s@.subrange(0, 0) =~= Seq::<char>::empty());
    assert(views(out@) =~= split(s@.take(0), sep).drop_last());
    while i < chars.len()
        invariant
            chars@ == s@,
            start <= i <= chars@.len(),
            split(s@.take(i as int), sep).len() >= 1,
            views(out@) == split(s@.take(i as int), sep).drop_last(),
            s@.subrange(start as int, i as int) == split(s@.take(i as int), sep).last(),
        decreases chars@.len() - i,
    {
        let ghost front = split(s@.take(i as int), sep);
        proof {
            assert(s@.take(i + 1).drop_last() =~= s@.take(i as int));
            assert(s@.take(i + 1).last() == s@[i as int]);
        }
        if chars[i] == sep {
            let ghost before = out@;
            out.push(s.substring_char(start, i));
            start = i + 1;
            proof {
                assert(views(out@) =~= views(before).push(front.last()));
                assert(front.drop_last().push(front.last()) =~= front);
                assert(split(s@.take(i + 1), sep).drop_last() =~= front);
                assert(s@.subrange(start as int, i + 1) =~= Seq::<char>::empty());
            }
        } else {
            proof {
                assert(s@.subrange(start as int, i + 1) =~= s@.subrange(
                    start as int,
                    i as int,
                ).push(s@[i as int]));
                assert(split(s@.take(i + 1), sep).drop_last() =~= front.drop_last());
            }
        }
        i = i + 1;
    }
    let ghost before = out@;
    let ghost whole = split(s@, sep);
    out.push(s.substring_char(start, i));
    proof {
        assert(s@.take(i as int) =~= s@);
        assert(views(out@) =~= views(before).push(whole.last()));
        assert(whole.drop_last().push(whole.last()) =~= whole);
    }
    out
}

/// Joins the strings of `parts` in `from..`, with `sep` between two neighbours.
pub fn join_from(parts: &Vec<&str>, from: usize, sep: &str) -> (res: String)
    requires
        from <= parts@.len(),
    ensures
        res@ == join(views(parts@).skip(from as int), sep@),
{
    let ghost all = views(parts@).skip(from as int);
    let mut out: String = String::new();
    let mut i: usize = from;
    assert(all.take(0) =~= Seq::empty());
    while i < parts.len()
        invariant
            from <= i <= parts@.len(),
            all == views(parts@).skip(from as int),
            out@ == join(all.take(i - from), sep@),
        decreases parts@.len() - i,
    {
        proof {
            assert(all.take(i + 1 - from).drop_last() =~= all.take(i - from));
            assert(all.take(i + 1 - from).last() == parts@[i as int]@);
        }
        if i > from {
            out.append(sep);
            out.append(parts[i]);
        } else {
            out = parts[i].to_owned();
        }
        i = i + 1;
    }
    assert(all.take(i - from) =~= all);
    out
}

/// Whether `needle` stands in `s` at position `i`.
pub open spec fn occurs_at(s: Seq<char>, needle: Seq<char>, i: int) -> bool {
    0 <= i && i + needle.len() <= s.len() && s.subrange(i, i + needle.len()) == needle
}

/// Whether `needle` stands anywhere in `s`.
pub open spec fn contains_text(s: Seq<char>, needle: Seq<char>) -> bool {
    exists|i: int| occurs_at(s, needle, i)
}

/// Position of the first occurrence of `needle` at `from` or later, or -1.
pub open spec fn find_text_from(s: Seq<char>, needle: Seq<char>, from: int) -> int
    decreases s.len() - from + 1,
{
    if from < 0 || from + needle.len() > s.len() {
        -1
    } else if occurs_at(s, needle, from) {
        from
    } else {
        find_text_from(s, needle, from + 1)
    }
}

/// Position of the first occurrence of `needle`, or -1.
pub open spec fn find_text(s: Seq<char>, needle: Seq<char>) -> int {
    find_text_from(s, needle, 0)
}

proof fn lemma_find_text_from(s: Seq<char>, needle: Seq<char>, from: int)
    requires
        0 <= from,
    ensures
        find_text_from(s, needle, from) >= 0 ==> {
            &&& from <= find_text_from(s, needle, from)
            &&& occurs_at(s, needle, find_text_from(s, needle, from))
        },
        forall|j: int|
            from <= j && (find_text_from(s, needle, from) < 0 || j < find_text_from(
                s,
                needle,
                from,
            )) ==> !occurs_at(s, needle, j),
    decreases s.len() - from + 1,
{
    if from + needle.len() <= s.len() && !occurs_at(s, needle, from) {
        lemma_find_text_from(s, needle, from + 1);
    }
}

/// `find_text` is the occurrence that no other one precedes, and there is one
/// exactly where the text is contained.
pub proof fn lemma_find_text(s: Seq<char>, needle: Seq<char>)
    ensures
        find_text(s, needle) >= 0 <==> contains_text(s, needle),
        find_text(s, needle) >= 0 ==> occurs_at(s, needle, find_text(s, needle)),
        forall|j: int|
            0 <= j < find_text(s, needle) ==> !occurs_at(s, needle, j),
{
    lemma_find_text_from(s, needle, 0);
}

/// Position of the first occurrence of `needle` in `s`.
pub fn find_str(s: &str, needle: &str) -> (res: Option<usize>)
    ensures
        match res {
            Some(i) => i == find_text(s@, needle@) && i + needle@.len() <= s@.len(),
            None => find_text(s@, needle@) < 0,
        },
{
    let chars = to_chars(s);
    let pat = to_chars(needle);
    let mut from: usize = 0;
    while from <= chars.len() && pat.len() <= chars.len() - from
        invariant
            chars@ == s@,
            pat@ == needle@,
            0 <= from <= chars@.len() + 1,
            find_text(s@, needle@) == find_text_from(s@, needle@, from as int),
        decreases chars@.len() + 1 - from,
    {
        if matches_at(&chars, &pat, from) {
            return Some(from);
        }
        proof {
            if pat@.len() == 0 {
                assert(s@.subrange(from as int, from as int) =~= needle@);
            }
        }
        from = from + 1;
    }
    None
}

fn matches_at(chars: &Vec<char>, pat: &Vec<char>, from: usize) -> (res: bool)
    requires
        from + pat@.len() <= chars@.len(),
    ensures
        res == occurs_at(chars@, pat@, from as int),
{
    let total: usize = chars.len();
    let mut k: usize = 0;
    while k < pat.len()
        invariant
            k <= pat@.len(),
            total == chars@.len(),
            from + pat@.len() <= chars@.len(),
            forall|j: int| 0 <= j < k ==> chars@[from + j] == pat@[j],
        decreases pat@.len() - k,
    {
        if chars[from + k] != pat[k] {
            assert(chars@.subrange(from as int, from + pat@.len())[k as int] != pat@[k as int]);
            return false;
        }
        k = k + 1;
    }
    assert(chars@.subrange(from as int, from + pat@.len()) =~= pat@);
    true
}

/// Whether `needle` stands anywhere in `s`.
pub fn contains_str(s: &str, needle: &str) -> (res: bool)
    ensures
        res == contains_text(s@, needle@),
{
    proof {
        lemma_find_text(s@, needle@);
    }
    find_str(s, needle).is_some()
}

/// Whether `s` begins with `prefix`.
pub open spec fn begins_with(s: Seq<char>, prefix: Seq<char>) -> bool {
    prefix.len() <= s.len() && s.take(prefix.len() as int) == prefix
}

/// What follows `prefix`, where `s` begins with it.
pub fn strip_prefix<'a>(s: &'a str, prefix: &str) -> (res: Option<&'a str>)
    ensures
        match res {
            Some(rest) => begins_with(s@, prefix@) && rest@ == s@.skip(prefix@.len() as int),
            None => !begins_with(s@, prefix@),
        },
{
    let chars = to_chars(s);
    let pat = to_chars(prefix);
    if pat.len() > chars.len() {
        return None;
    }
    assert(s@.subrange(0, prefix@.len() as int) =~= s@.take(prefix@.len() as int));
    if matches_at(&chars, &pat, 0) {
        assert(s@.subrange(prefix@.len() as int, s@.len() as int) =~= s@.skip(
            prefix@.len() as int,
        ));
        Some(s.substring_char(pat.len(), chars.len()))
    } else {
        None
    }
}

/// Whether `s` begins with `prefix`.
pub fn starts_with(s: &str, prefix: &str) -> (res: bool)
    ensures
        res == begins_with(s@, prefix@),
{
    strip_prefix(s, prefix).is_some()
}

/// `s` without the leading characters for which `drop` holds.
pub open spec fn trim_start_by(s: Seq<char>, drop: spec_fn(char) -> bool) -> Seq<char>
    decreases s.len(),
{
    if s.len() > 0 && drop(s[0]) {
        trim_start_by(s.drop_first(), drop)
    } else {
        s
    }
}

/// `s` without the trailing characters for which `drop` holds.
pub open spec fn trim_end_by(s: Seq<char>, drop: spec_fn(char) -> bool) -> Seq<char>
    decreases s.len(),
{
    if s.len() > 0 && drop(s.last()) {
        trim_end_by(s.drop_last(), drop)
    } else {
        s
    }
}

/// `s` without the characters at either end for which `drop` holds.
pub open spec fn trim_by(s: Seq<char>, drop: spec_fn(char) -> bool) -> Seq<char> {
    trim_end_by(trim_start_by(s, drop), drop)
}

/// `s` without the quotes (or other character `c`) at either end.
pub open spec fn trim_char(s: Seq<char>, c: char) -> Seq<char> {
    trim_by(s, equal_to(c))
}

/// The test for one character.
pub open spec fn equal_to(c: char) -> spec_fn(char) -> bool {
    |x: char| x == c
}

/// `s` without the white space at either end.
pub open spec fn trim_white(s: Seq<char>) -> Seq<char> {
    trim_by(s, |x: char| white_space(x))
}

fn trim_marked<'a>(s: &'a str, marks: &Vec<bool>, Ghost(drop): Ghost<spec_fn(char) -> bool>) -> (res:
    &'a str)
    requires
        marks@.len() == s@.len(),
        forall|i: int| 0 <= i < s@.len() ==> #[trigger] marks@[i] == drop(s@[i]),
    ensures
        res@ == trim_by(s@, drop),
{
    let n: usize = marks.len();
    let mut from: usize = 0;
    assert(s@.skip(0) =~= s@);
    while from < n && marks[from]
        invariant
            n == marks@.len() == s@.len(),
            forall|i: int| 0 <= i < s@.len() ==> #[trigger] marks@[i] == drop(s@[i]),
            from <= n,
            trim_start_by(s@, drop) == trim_start_by(s@.skip(from as int), drop),
        decreases n - from,
    {
        assert(s@.skip(from as int).drop_first() =~= s@.skip(from + 1));
        from = from + 1;
    }
    assert(trim_start_by(s@, drop) == s@.skip(from as int));
    let mut to: usize = n;
    assert(s@.subrange(from as int, n as int) =~= s@.skip(from as int));
    while to > from && marks[to - 1]
        invariant
            n == marks@.len() == s@.len(),
            forall|i: int| 0 <= i < s@.len() ==> #[trigger] marks@[i] == drop(s@[i]),
            from <= to <= n,
            trim_by(s@, drop) == trim_end_by(s@.subrange(from as int, to as int), drop),
        decreases to - from,
    {
        assert(s@.subrange(from as int, to as int).drop_last() =~= s@.subrange(
            from as int,
            to - 1,
        ));
        to = to - 1;
    }
    s.substring_char(from, to)
}

/// `s` without the occurrences of `c` at either end.
pub fn trim_matches<'a>(s: &'a str, c: char) -> (res: &'a str)
    ensures
        res@ == trim_char(s@, c),
{
    let chars = to_chars(s);
    let mut marks: Vec<bool> = Vec::new();
    let mut i: usize = 0;
    while i < chars.len()
        invariant
            chars@ == s@,
            i <= chars@.len(),
            marks@.len() == i,
            forall|j: int| 0 <= j < i ==> #[trigger] marks@[j] == (s@[j] == c),
        decreases chars@.len() - i,
    {
        marks.push(chars[i] == c);
        i = i + 1;
    }
    trim_marked(s, &marks, Ghost(equal_to(c)))
}

/// The Unicode property `White_Space`, beyond ASCII.
pub uninterp spec fn wide_white_space(c: char) -> bool;

/// A white space character. In ASCII these are the blank and the control characters
/// from the tabulator to the carriage return.
pub open spec fn white_space(c: char) -> bool {
    if (c as u32) < 0x80 {
        c == ' ' || ('\t' <= c && c <= '\r')
    } else {
        wide_white_space(c)
    }
}

/// `char::is_whitespace` tells whether a character has the Unicode property
/// `White_Space`. What that property is on ASCII is stated; beyond ASCII it is
/// only named.
pub assume_specification[ char::is_whitespace ](c: char) -> (res: bool)
    ensures
        (c as u32) < 0x80 ==> res == white_space(c),
        (c as u32) >= 0x80 ==> res == wide_white_space(c),
;

/// `s` without the white space at either end.
pub fn trim<'a>(s: &'a str) -> (res: &'a str)
    ensures
        res@ == trim_white(s@),
{
    let chars = to_chars(s);
    let mut marks: Vec<bool> = Vec::new();
    let mut i: usize = 0;
    while i < chars.len()
        invariant
            chars@ == s@,
            i <= chars@.len(),
            marks@.len() == i,
            forall|j: int| 0 <= j < i ==> #[trigger] marks@[j] == white_space(s@[j]),
        decreases chars@.len() - i,
    {
        marks.push(chars[i].is_whitespace());
        i = i + 1;
    }
    trim_marked(s, &marks, Ghost(|x: char| white_space(x)))
}

/// A line without the carriage return before its line feed.
pub open spec fn strip_carriage_return(line: Seq<char>) -> Seq<char> {
    if line.len() > 0 && line.last() == '\r' {
        line.drop_last()
    } else {
        line
    }
}

/// The lines of a text. A line ends in a line feed, with or without a carriage
/// return before it; the end of the text ends a last line that is not empty.
pub open spec fn lines_of(s: Seq<char>) -> Seq<Seq<char>> {
    let pieces = split(s, '\n');
    let ended = pieces.drop_last().map_values(|l: Seq<char>| strip_carriage_return(l));
    if pieces.last().len() > 0 {
        ended.push(pieces.last())
    } else {
        ended
    }
}

/// The lines of `s`.
pub fn lines<'a>(s: &'a str) -> (res: Vec<&'a str>)
    ensures
        views(res@) == lines_of(s@),
{
    let pieces = split_char(s, '\n');
    proof {
        lemma_split_nonempty(s@, '\n');
        assert(views(pieces@).len() == pieces@.len());
    }
    let ghost ended = split(s@, '\n').drop_last().map_values(
        |l: Seq<char>| strip_carriage_return(l),
    );
    let mut out: Vec<&'a str> = Vec::new();
    let ended_count: usize = pieces.len() - 1;
    let mut i: usize = 0;
    while i < ended_count
        invariant
            ended_count == pieces@.len() - 1,
            i <= ended_count,
            views(pieces@) == split(s@, '\n'),
            ended == split(s@, '\n').drop_last().map_values(
                |l: Seq<char>| strip_carriage_return(l),
            ),
            views(out@) == ended.take(i as int),
        decreases pieces@.len() - i,
    {
        let piece = pieces[i];
        assert(views(pieces@)[i as int] == piece@);
        let n: usize = piece.unicode_len();
        let ghost before = out@;
        if n > 0 && piece.get_char(n - 1) == '\r' {
            assert(piece@.subrange(0, n - 1) =~= piece@.drop_last());
            out.push(piece.substring_char(0, n - 1));
        } else {
            out.push(piece);
        }
        assert(views(out@) =~= views(before).push(ended[i as int]));
        assert(ended.take(i + 1) =~= ended.take(i as int).push(ended[i as int]));
        i = i + 1;
    }
    let last = pieces[i];
    assert(views(pieces@)[i as int] == last@);
    assert(ended.take(i as int) =~= ended);
    if !last.is_empty() {
        let ghost before = out@;
        out.push(last);
        assert(views(out@) =~= views(before).push(last@));
    }
    out
}

/// Whether a string can be cut after its first `n` bytes.
pub open spec fn cuttable(s: Seq<char>, n: int) -> bool {
    0 <= n <= encode_utf8(s).len() && is_char_boundary(encode_utf8(s), n)
}

/// The characters in the first `n` bytes of a string.
pub open spec fn byte_cut(s: Seq<char>, n: int) -> Seq<char> {
    decode_utf8(encode_utf8(s).subrange(0, n))
}

/// The first `n` bytes of `s`, where it has so many and no character straddles
/// the cut.
pub fn byte_prefix<'a>(s: &'a str, n: usize) -> (res: Option<&'a str>)
    ensures
        match res {
            Some(p) => cuttable(s@, n as int) && p@ == byte_cut(s@, n as int),
            None => !cuttable(s@, n as int),
        },
{
    if n > s.as_bytes().len() {
        return None;
    }
    if s.is_char_boundary(n) {
        let (head, _tail) = s.split_at(n);
        proof {
            encode_utf8_decode_utf8(head@);
        }
        Some(head)
    } else {
        None
    }
}

/// On ASCII a byte is a character: the cut takes the first `n` characters.
pub proof fn law_byte_cut_ascii(s: Seq<char>, n: int)
    requires
        is_ascii_chars(s),
        0 <= n <= s.len(),
    ensures
        cuttable(s, n),
        byte_cut(s, n) == s.take(n),
{
    is_ascii_chars_encode_utf8(s);
    is_ascii_chars_encode_utf8(s.take(n));
    assert(encode_utf8(s).subrange(0, n) =~= encode_utf8(s.take(n)));
    encode_utf8_decode_utf8(s.take(n));
    encode_utf8_valid_utf8(s);
    if n < s.len() {
        is_char_boundary_iff_not_is_continuation_byte(encode_utf8(s), n);
    } else {
        is_char_boundary_start_end_of_seq(encode_utf8(s));
    }
}

/// Number of bytes of `s`.
pub fn byte_len(s: &str) -> (res: usize)
    ensures
        res == encode_utf8(s@).len(),
{
    s.as_bytes().len()
}

/// The order of texts: the first difference decides, and a beginning comes before
/// what it begins. It is the order of the UTF-8 bytes too.
pub open spec fn lex_le(a: Seq<char>, b: Seq<char>) -> bool
    decreases a.len(),
{
    if a.len() == 0 {
        true
    } else if b.len() == 0 {
        false
    } else if a[0] != b[0] {
        a[0] < b[0]
    } else {
        lex_le(a.drop_first(), b.drop_first())
    }
}

/// The order of texts compares any two, is transitive, and only equal texts stand
/// on both sides of each other.
pub proof fn lemma_lex_total(a: Seq<char>, b: Seq<char>, c: Seq<char>)
    ensures
        lex_le(a, a),
        lex_le(a, b) || lex_le(b, a),
        lex_le(a, b) && lex_le(b, a) ==> a == b,
        lex_le(a, b) && lex_le(b, c) ==> lex_le(a, c),
    decreases a.len() + b.len() + c.len(),
{
    if a.len() > 0 && b.len() > 0 {
        let c1 = if c.len() > 0 {
            c.drop_first()
        } else {
            c
        };
        lemma_lex_total(a.drop_first(), b.drop_first(), c1);
        if a[0] == b[0] && a.drop_first() == b.drop_first() {
            assert(a =~= seq![a[0]] + a.drop_first());
            assert(b =~= seq![b[0]] + b.drop_first());
        }
    } else if a.len() > 0 {
        lemma_lex_total(a.drop_first(), b, c);
    } else if b.len() == 0 {
        assert(a =~= b);
    }
}

/// Whether `a` comes before `b` or equals it.
pub fn str_le(a: &str, b: &str) -> (res: bool)
    ensures
        res == lex_le(a@, b@),
{
    let x = to_chars(a);
    let y = to_chars(b);
    let mut i: usize = 0;
    assert(a@.skip(0) =~= a@);
    assert(b@.skip(0) =~= b@);
    while i < x.len()
        invariant
            x@ == a@,
            y@ == b@,
            i <= x@.len(),
            i <= y@.len(),
            lex_le(a@, b@) == lex_le(a@.skip(i as int), b@.skip(i as int)),
        decreases x@.len() - i,
    {
        if i >= y.len() {
            return false;
        }
        if x[i] != y[i] {
            return x[i] < y[i];
        }
        assert(a@.skip(i as int).drop_first() =~= a@.skip(i + 1));
        assert(b@.skip(i as int).drop_first() =~= b@.skip(i + 1));
        i = i + 1;
    }
    true
}

/// In strictly ascending order.
pub open spec fn strictly_ascending(s: Seq<Seq<char>>) -> bool {
    forall|i: int, j: int|
        0 <= i < j < s.len() ==> lex_le(#[trigger] s[i], #[trigger] s[j]) && s[i] != s[j]
}

/// A new text put in its place keeps a list strictly ascending.
pub proof fn lemma_insert_ascending(before: Seq<Seq<char>>, at: int, x: Seq<char>)
    requires
        strictly_ascending(before),
        0 <= at <= before.len(),
        forall|j: int| 0 <= j < at ==> !lex_le(x, #[trigger] before[j]),
        at < before.len() ==> lex_le(x, before[at]) && x != before[at],
    ensures
        strictly_ascending(before.insert(at, x)),
        forall|y: Seq<char>| #[trigger]
            before.insert(at, x).contains(y) <==> before.contains(y) || y == x,
{
    let after = before.insert(at, x);
    assert forall|i: int, j: int| 0 <= i < j < after.len() implies lex_le(
        #[trigger] after[i],
        #[trigger] after[j],
    ) && after[i] != after[j] by {
        if j < at {
            assert(after[i] == before[i] && after[j] == before[j]);
        } else if j == at {
            assert(after[i] == before[i]);
            lemma_lex_total(x, before[i], before[i]);
        } else if i == at {
            assert(after[j] == before[j - 1]);
            if j - 1 > at {
                assert(lex_le(before[at], before[j - 1]));
                lemma_lex_total(x, before[at], before[j - 1]);
                lemma_lex_total(before[at], x, x);
            }
        } else {
            assert(after[j] == before[j - 1]);
            if i < at {
                assert(after[i] == before[i]);
            } else {
                assert(after[i] == before[i - 1]);
            }
        }
    }
    assert forall|y: Seq<char>| #[trigger] after.contains(y) <==> before.contains(y) || y == x by {
        if before.contains(y) {
            let k = choose|k: int| 0 <= k < before.len() && before[k] == y;
            if k < at {
                assert(after[k] == y);
            } else {
                assert(after[k + 1] == y);
            }
        }
        if y == x {
            assert(after[at] == y);
        }
        if after.contains(y) {
            let k = choose|k: int| 0 <= k < after.len() && after[k] == y;
            if k < at {
                assert(before[k] == y);
            } else if k > at {
                assert(before[k - 1] == y);
            }
        }
    }
}

/// A strictly ascending list is settled by what it holds.
pub proof fn law_ascending_unique(a: Seq<Seq<char>>, b: Seq<Seq<char>>)
    requires
        strictly_ascending(a),
        strictly_ascending(b),
        forall|x: Seq<char>| #[trigger] a.contains(x) <==> b.contains(x),
    ensures
        a == b,
    decreases a.len() + b.len(),
{
    if a.len() == 0 {
        if b.len() > 0 {
            assert(b.contains(b[0]));
            assert(a.contains(b[0]));
        }
        assert(a =~= b);
    } else if b.len() == 0 {
        assert(a.contains(a[0]));
    } else {
        let x = a.last();
        let y = b.last();
        assert(a.contains(x));
        assert(b.contains(y));
        assert(a.contains(y));
        let p = choose|p: int| 0 <= p < b.len() && b[p] == x;
        let q = choose|q: int| 0 <= q < a.len() && a[q] == y;
        lemma_lex_total(x, y, y);
        assert(x == y);
        let c = a.drop_last();
        let d = b.drop_last();
        assert forall|z: Seq<char>| #[trigger] c.contains(z) <==> d.contains(z) by {
            if c.contains(z) {
                let k = choose|k: int| 0 <= k < c.len() && c[k] == z;
                assert(a[k] == z);
                assert(a.contains(z));
                let m = choose|m: int| 0 <= m < b.len() && b[m] == z;
                assert(z != x);
                assert(d[m] == z);
            }
            if d.contains(z) {
                let k = choose|k: int| 0 <= k < d.len() && d[k] == z;
                assert(b[k] == z);
                assert(b.contains(z));
                assert(a.contains(z));
                let m = choose|m: int| 0 <= m < a.len() && a[m] == z;
                assert(z != y);
                assert(c[m] == z);
            }
        }
        law_ascending_unique(c, d);
        assert(a =~= c.push(x));
        assert(b =~= d.push(y));
    }
}

/// The first `n` characters of `s`, or all of it where it is shorter.
pub open spec fn first_of(s: Seq<char>, n: int) -> Seq<char> {
    if n < s.len() {
        s.take(n)
    } else {
        s
    }
}

/// The first `n` characters of `s`, or all of it where it is shorter.
pub fn first_chars<'a>(s: &'a str, n: usize) -> (res: &'a str)
    ensures
        res@ == first_of(s@, n as int),
{
    let len: usize = to_chars(s).len();
    if n < len {
        assert(s@.subrange(0, n as int) =~= s@.take(n as int));
        s.substring_char(0, n)
    } else {
        s
    }
}

/// `s` with `to` in place of every `from`.
pub open spec fn replaced(s: Seq<char>, from: char, to: char) -> Seq<char> {
    s.map_values(
        |c: char|
            if c == from {
                to
            } else {
                c
            },
    )
}

proof fn lemma_join_push(parts: Seq<Seq<char>>, sep: Seq<char>, c: char)
    requires
        parts.len() > 0,
    ensures
        join(parts.drop_last().push(parts.last().push(c)), sep) == join(parts, sep).push(c),
{
    let next = parts.drop_last().push(parts.last().push(c));
    assert(next.drop_last() =~= parts.drop_last());
    if parts.len() > 1 {
        assert(join(next, sep) =~= join(parts, sep).push(c));
    }
}

proof fn lemma_join_replaced(s: Seq<char>, from: char, to: char)
    ensures
        join(split(s, from), seq![to]) == replaced(s, from, to),
    decreases s.len(),
{
    let sep = seq![to];
    if s.len() == 0 {
        assert(join(split(s, from), sep) =~= replaced(s, from, to));
    } else {
        let front = split(s.drop_last(), from);
        lemma_join_replaced(s.drop_last(), from, to);
        lemma_split_nonempty(s.drop_last(), from);
        if s.last() == from {
            let next = front.push(Seq::<char>::empty());
            assert(next.drop_last() =~= front);
            assert(join(next, sep) =~= join(front, sep) + sep);
            assert(replaced(s, from, to) =~= join(front, sep) + sep);
        } else {
            lemma_join_push(front, sep, s.last());
            assert(replaced(s, from, to) =~= join(front, sep).push(s.last()));
        }
    }
}

/// `s` with the character of `to` in place of every `from`.
pub fn replace_char(s: &str, from: char, to: &str) -> (res: String)
    requires
        to@.len() == 1,
    ensures
        res@ == replaced(s@, from, to@[0]),
{
    let parts = split_char(s, from);
    proof {
        lemma_join_replaced(s@, from, to@[0]);
        assert(to@ =~= seq![to@[0]]);
        assert(views(parts@).skip(0) =~= views(parts@));
    }
    join_from(&parts, 0, to)
}

/// The characters of a string that may be missing.
pub open spec fn optional_view(s: Option<String>) -> Option<Seq<char>> {
    match s {
        Some(t) => Some(t@),
        None => None,
    }
}

/// A separator between two texts parts the pieces of the one from those of the other.
pub proof fn law_split_concat(a: Seq<char>, b: Seq<char>, sep: char)
    ensures
        split(a.push(sep) + b, sep) == split(a, sep) + split(b, sep),
    decreases b.len(),
{
    let whole = a.push(sep) + b;
    lemma_split_nonempty(b, sep);
    if b.len() == 0 {
        assert(whole =~= a.push(sep));
        assert(whole.drop_last() =~= a);
        assert(split(whole, sep) =~= split(a, sep) + split(b, sep));
    } else {
        let c = b.drop_last();
        law_split_concat(a, c, sep);
        lemma_split_nonempty(c, sep);
        assert(whole.drop_last() =~= a.push(sep) + c);
        assert(whole.last() == b.last());
        assert((split(a, sep) + split(c, sep)).last() == split(c, sep).last());
        assert(split(whole, sep) =~= split(a, sep) + split(b, sep));
    }
}

/// Lines that are ended one by one are the lines of the whole, whether or not the last
/// of them is ended too.
pub proof fn law_lines(lines: Seq<Seq<char>>)
    requires
        lines.len() > 0,
        forall|i: int|
            0 <= i < lines.len() ==> !(#[trigger] lines[i]).contains('\n') && (lines[i].len() > 0
                ==> lines[i].last() != '\r'),
    ensures
        lines_of(join(lines, seq!['\n']).push('\n')) == lines,
        lines.last().len() > 0 ==> lines_of(join(lines, seq!['\n'])) == lines,
{
    let text = join(lines, seq!['\n']);
    law_split_join(lines, '\n');
    law_split_concat(text, Seq::empty(), '\n');
    assert(text.push('\n') + Seq::<char>::empty() =~= text.push('\n'));
    let pieces = split(text.push('\n'), '\n');
    assert(pieces =~= lines.push(Seq::empty()));
    assert(pieces.drop_last() =~= lines);
    assert forall|i: int| 0 <= i < lines.len() implies strip_carriage_return(#[trigger] lines[i])
        == lines[i] by {
        assert(!lines[i].contains('\n'));
    }
    assert(lines.map_values(|l: Seq<char>| strip_carriage_return(l)) =~= lines);
    assert(lines_of(text.push('\n')) =~= lines);
    if lines.last().len() > 0 {
        let front = lines.drop_last();
        assert forall|i: int| 0 <= i < front.len() implies strip_carriage_return(
            #[trigger] front[i],
        ) == front[i] by {
            assert(front[i] == lines[i]);
        }
        assert(front.map_values(|l: Seq<char>| strip_carriage_return(l)) =~= front);
        assert(lines_of(text) =~= lines);
    }
}

/// A carriage return before a line feed belongs to the end of the line.
pub proof fn law_carriage_return(line: Seq<char>, rest: Seq<char>)
    requires
        !line.contains('\n'),
    ensures
        lines_of(line.push('\r').push('\n') + rest).len() > 0,
        lines_of(line.push('\r').push('\n') + rest)[0] == line,
{
    let ended = line.push('\r');
    assert(!ended.contains('\n')) by {
        if ended.contains('\n') {
            let k = choose|k: int| 0 <= k < ended.len() && ended[k] == '\n';
            assert(line[k] == '\n');
        }
    }
    law_split_concat(ended, rest, '\n');
    lemma_split_nonempty(rest, '\n');
    law_split_join(seq![ended], '\n');
    let pieces = split(ended.push('\n') + rest, '\n');
    assert(pieces[0] == ended);
    assert(pieces.drop_last()[0] == ended);
    assert(strip_carriage_return(ended) =~= line);
}

proof fn lemma_trim_start(s: Seq<char>, drop: spec_fn(char) -> bool) -> (from: int)
    ensures
        0 <= from <= s.len(),
        trim_start_by(s, drop) == s.skip(from),
        forall|i: int| 0 <= i < from ==> drop(#[trigger] s[i]),
        from < s.len() ==> !drop(s[from]),
    decreases s.len(),
{
    if s.len() > 0 && drop(s[0]) {
        let r = lemma_trim_start(s.drop_first(), drop);
        assert(s.drop_first().skip(r) =~= s.skip(r + 1));
        assert forall|i: int| 0 <= i < r + 1 implies drop(#[trigger] s[i]) by {
            if i > 0 {
                assert(s.drop_first()[i - 1] == s[i]);
            }
        }
        r + 1
    } else {
        assert(s.skip(0) =~= s);
        0
    }
}

proof fn lemma_trim_end(s: Seq<char>, drop: spec_fn(char) -> bool) -> (to: int)
    ensures
        0 <= to <= s.len(),
        trim_end_by(s, drop) == s.take(to),
        forall|i: int| to <= i < s.len() ==> drop(#[trigger] s[i]),
        to > 0 ==> !drop(s[to - 1]),
    decreases s.len(),
{
    if s.len() > 0 && drop(s.last()) {
        let r = lemma_trim_end(s.drop_last(), drop);
        assert(s.drop_last().take(r) =~= s.take(r));
        assert forall|i: int| r <= i < s.len() implies drop(#[trigger] s[i]) by {
            if i < s.len() - 1 {
                assert(s.drop_last()[i] == s[i]);
            }
        }
        r
    } else {
        assert(s.take(s.len() as int) =~= s);
        s.len() as int
    }
}

/// Trimming takes away characters at the two ends only, all of the kind to drop, and
/// leaves none of that kind at either end.
pub proof fn law_trim(s: Seq<char>, drop: spec_fn(char) -> bool)
    ensures
        exists|from: int, to: int| #[trigger]
            s.subrange(from, to) == trim_by(s, drop) && 0 <= from <= to <= s.len() && (forall|
                i: int,
            |
                0 <= i < from || to <= i < s.len() ==> drop(#[trigger] s[i])),
        trim_by(s, drop).len() > 0 ==> !drop(trim_by(s, drop)[0]) && !drop(
            trim_by(s, drop).last(),
        ),
{
    let from = lemma_trim_start(s, drop);
    let rest = s.skip(from);
    let kept = lemma_trim_end(rest, drop);
    assert(s.subrange(from, from + kept) =~= rest.take(kept));
    assert forall|i: int| 0 <= i < from || from + kept <= i < s.len() implies drop(
        #[trigger] s[i],
    ) by {
        if i >= from {
            assert(rest[i - from] == s[i]);
        }
    }
}

/// A text between quotes, or without any, is the text when the quotes are trimmed.
pub proof fn law_trim_quotes(text: Seq<char>, quote: char)
    requires
        !text.contains(quote),
    ensures
        trim_char(seq![quote] + text + seq![quote], quote) == text,
        trim_char(text, quote) == text,
{
    let drop = equal_to(quote);
    let s = seq![quote] + text + seq![quote];
    let from = lemma_trim_start(s, drop);
    let rest = s.skip(from);
    let kept = lemma_trim_end(rest, drop);
    if text.len() > 0 {
        assert(text.contains(text[0]));
        assert(text.contains(text.last()));
        assert(s[1] == text[0] && !drop(s[1]));
        assert(from == 1) by {
            if from == 0 {
                assert(drop(s[0]));
            }
        }
        let n = text.len() as int;
        assert(rest[n - 1] == text.last() && rest[n] == quote);
        assert(kept == n) by {
            if kept == n + 1 {
                assert(drop(rest[n]));
            }
            if kept < n {
                assert(drop(rest[n - 1]));
            }
        }
        assert(rest.take(kept) =~= text);
    } else {
        assert(rest.take(kept) =~= text) by {
            if kept > 0 {
                assert(!drop(rest[kept - 1]));
                assert(s[from + kept - 1] == quote);
            }
        }
    }
    let f2 = lemma_trim_start(text, drop);
    if f2 > 0 {
        assert(drop(text[0]));
        assert(text.contains(text[0]));
    }
    assert(text.skip(0) =~= text);
    let k2 = lemma_trim_end(text, drop);
    if k2 < text.len() {
        assert(drop(text[text.len() - 1]));
        assert(text.contains(text[text.len() - 1]));
    }
    assert(text.take(text.len() as int) =~= text);
}

/// White space at the ends of ASCII text is the blank, the tabulator and the line ends.
pub proof fn law_ascii_white_space(c: char)
    requires
        (c as u32) < 0x80,
    ensures
        white_space(c) <==> c == ' ' || c == '\t' || c == '\n' || c == '\r' || c == '\x0b' || c
            == '\x0c',
{
}

/// Replacing a character changes nothing but its occurrences.
pub proof fn law_replaced(s: Seq<char>, from: char, to: char, i: int)
    requires
        0 <= i < s.len(),
    ensures
        replaced(s, from, to).len() == s.len(),
        s[i] == from ==> replaced(s, from, to)[i] == to,
        s[i] != from ==> replaced(s, from, to)[i] == s[i],
{
}

/// The first characters of a text are as many as asked for, or all.
pub proof fn law_first_of(s: Seq<char>, n: int)
    requires
        0 <= n,
    ensures
        s.len() <= n ==> first_of(s, n) == s,
        s.len() > n ==> first_of(s, n).len() == n,
        forall|i: int| 0 <= i < first_of(s, n).len() ==> first_of(s, n)[i] == s[i],
{
}

/// The first place of a text is a place of it, and no other place comes before it.
pub proof fn law_find_text(s: Seq<char>, needle: Seq<char>, i: int)
    ensures
        find_text(s, needle) >= 0 <==> contains_text(s, needle),
        find_text(s, needle) >= 0 ==> find_text(s, needle) + needle.len() <= s.len() && s.subrange(
            find_text(s, needle),
            find_text(s, needle) + needle.len(),
        ) == needle,
        0 <= i && i + needle.len() <= s.len() && s.subrange(i, i + needle.len()) == needle ==> 0
            <= find_text(s, needle) <= i,
{
    lemma_find_text(s, needle);
    lemma_find_text_from(s, needle, 0);
    if 0 <= i && i + needle.len() <= s.len() && s.subrange(i, i + needle.len()) == needle {
        assert(occurs_at(s, needle, i));
    }
}

/// Looking for a character from the front gives its first place, looking from the back
/// its last; a character that is not there has no place.
pub proof fn law_find_char(s: Seq<char>, c: char, i: int)
    ensures
        0 <= i < s.len() && s[i] == c && (forall|j: int| 0 <= j < i ==> #[trigger] s[j] != c)
            ==> find(s, c) == i,
        0 <= i < s.len() && s[i] == c && (forall|j: int| i < j < s.len() ==> #[trigger] s[j] != c)
            ==> rfind(s, c) == i,
        !s.contains(c) ==> find(s, c) < 0 && rfind(s, c) < 0,
{
    lemma_find(s, c);
    lemma_rfind(s, c);
    if 0 <= i < s.len() && s[i] == c {
        let p = find(s, c);
        let q = rfind(s, c);
        assert(s.contains(c));
        assert(0 <= p < s.len() && s[p] == c);
        assert(0 <= q < s.len() && s[q] == c);
    }
}

/// A text contains another one exactly where it is that one with something before and
/// something behind it.
pub proof fn law_contains_text(a: Seq<char>, needle: Seq<char>, b: Seq<char>, s: Seq<char>)
    ensures
        contains_text(a + needle + b, needle),
        contains_text(s, needle) ==> exists|i: int|
            0 <= i && i + needle.len() <= s.len() && #[trigger] s.take(i) + needle + s.skip(
                i + needle.len(),
            ) == s,
{
    let n = a.len() as int;
    assert((a + needle + b).subrange(n, n + needle.len()) =~= needle);
    assert(occurs_at(a + needle + b, needle, n));
    if contains_text(s, needle) {
        let i = choose|i: int| occurs_at(s, needle, i);
        assert(s.take(i) + s.subrange(i, i + needle.len()) + s.skip(i + needle.len()) =~= s);
    }
}

/// A text begins with another one exactly where it is that one with something behind it.
pub proof fn law_begins_with(prefix: Seq<char>, rest: Seq<char>, s: Seq<char>)
    ensures
        begins_with(prefix + rest, prefix),
        (prefix + rest).skip(prefix.len() as int) == rest,
        begins_with(s, prefix) ==> s == prefix + s.skip(prefix.len() as int),
{
    assert((prefix + rest).take(prefix.len() as int) =~= prefix);
    assert((prefix + rest).skip(prefix.len() as int) =~= rest);
    if begins_with(s, prefix) {
        assert(s =~= s.take(prefix.len() as int) + s.skip(prefix.len() as int));
    }
}

/// The digits are the ten from zero to nine.
pub proof fn law_digits(c: char, s: Seq<char>)
    ensures
        is_digit(c) <==> 48 <= c as u32 <= 57,
        all_digits(s.push(c)) <==> all_digits(s) && is_digit(c),
        all_digits(Seq::empty()),
{
    if all_digits(s.push(c)) {
        assert forall|i: int| 0 <= i < s.len() implies is_digit(#[trigger] s[i]) by {
            assert(s.push(c)[i] == s[i]);
        }
        assert(s.push(c)[s.len() as int] == c);
    }
}

/// Texts are ordered by their first difference; a text comes before every text that goes
/// on behind it.
pub proof fn law_lexical_order(a: Seq<char>, b: Seq<char>, k: int)
    ensures
        lex_le(a, a + b),
        b.len() > 0 ==> !lex_le(a + b, a),
        0 <= k < a.len() && k < b.len() && a.take(k) == b.take(k) && a[k] != b[k] ==> (lex_le(a, b)
            <==> a[k] < b[k]),
    decreases a.len(),
{
    if a.len() > 0 {
        let rest = a.drop_first();
        law_lexical_order(rest, b, k);
        assert((a + b).drop_first() =~= rest + b);
        if b.len() > 0 {
            law_lexical_order(rest, b.drop_first(), k - 1);
            if 0 < k && k < a.len() && k < b.len() && a.take(k) == b.take(k) {
                assert(a.take(k)[0] == b.take(k)[0]);
                assert(rest.take(k - 1) =~= a.take(k).drop_first());
                assert(b.drop_first().take(k - 1) =~= b.take(k).drop_first());
            }
        }
    } else {
        assert(a + b =~= b);
    }
}

/// White space around a text is trimmed, and nothing else.
pub proof fn law_trim_white(a: Seq<char>, s: Seq<char>, b: Seq<char>)
    requires
        forall|i: int| 0 <= i < a.len() ==> white_space(#[trigger] a[i]),
        forall|i: int| 0 <= i < b.len() ==> white_space(#[trigger] b[i]),
        s.len() > 0 ==> !white_space(s[0]) && !white_space(s.last()),
    ensures
        trim_white(a + s + b) == s,
{
    let drop = |x: char| white_space(x);
    let whole = a + s + b;
    let kept = trim_by(whole, drop);
    law_trim(whole, drop);
    let (from, to) = choose|from: int, to: int| #[trigger]
        whole.subrange(from, to) == kept && 0 <= from <= to <= whole.len() && (forall|i: int|
            0 <= i < from || to <= i < whole.len() ==> drop(#[trigger] whole[i]));
    let n = a.len() as int;
    let m = n + s.len();
    if s.len() > 0 {
        assert(whole[n] == s[0]);
        assert(whole[m - 1] == s.last());
        assert(from <= n && to >= m);
        if from < n {
            assert(kept[0] == whole[from]);
            assert(whole[from] == a[from]);
        }
        if to > m {
            assert(kept.last() == whole[to - 1]);
            assert(whole[to - 1] == b[to - 1 - m]);
        }
        assert(whole.subrange(n, m) =~= s);
    } else if kept.len() > 0 {
        assert(kept[0] == whole[from]);
        if from < n {
            assert(whole[from] == a[from]);
        } else {
            assert(whole[from] == b[from - n]);
        }
    } else {
        assert(kept =~= s);
    }
}

/// The lines of two texts, of which the first is ended, are those of the one and then those
/// of the other.
pub proof fn law_lines_concat(a: Seq<char>, b: Seq<char>)
    ensures
        lines_of(a.push('\n') + b) == lines_of(a.push('\n')) + lines_of(b),
{
    law_split_concat(a, b, '\n');
    law_split_concat(a, Seq::empty(), '\n');
    lemma_split_nonempty(a, '\n');
    lemma_split_nonempty(b, '\n');
    let p = split(a, '\n');
    let q = split(b, '\n');
    let nothing = split(Seq::<char>::empty(), '\n');
    assert(a.push('\n') + Seq::<char>::empty() =~= a.push('\n'));
    assert(nothing =~= seq![Seq::<char>::empty()]);
    assert((p + nothing).drop_last() =~= p);
    assert((p + nothing).last().len() == 0);
    assert((p + q).drop_last() =~= p + q.drop_last());
    assert((p + q).last() == q.last());
    assert(lines_of(a.push('\n') + b) =~= lines_of(a.push('\n')) + lines_of(b));
}

/// A carriage return belongs to the end of a line that is ended; behind the last line,
/// which is not, it stays.
pub proof fn law_last_line(line: Seq<char>)
    requires
        !line.contains('\n'),
    ensures
        lines_of(line.push('\r')) == seq![line.push('\r')],
        lines_of(line.push('\r').push('\n')) == seq![line],
        line.len() > 0 ==> lines_of(line) == seq![line],
        lines_of(Seq::empty()).len() == 0,
{
    let last = line.push('\r');
    if last.contains('\n') {
        let k = choose|k: int| 0 <= k < last.len() && last[k] == '\n';
        assert(line[k] == '\n');
    }
    law_split_join(seq![line], '\n');
    law_split_join(seq![last], '\n');
    law_split_concat(last, Seq::empty(), '\n');
    assert(last.push('\n') + Seq::<char>::empty() =~= last.push('\n'));
    assert(split(Seq::<char>::empty(), '\n') =~= seq![Seq::<char>::empty()]);
    assert(last.drop_last() =~= line);
    assert(lines_of(last) =~= seq![last]);
    assert(lines_of(last.push('\n')) =~= seq![line]);
    assert(line.len() > 0 ==> lines_of(line) =~= seq![line]);
}

} // verus!
