//! Numbers written out as text.

use vstd::prelude::*;

verus! {

/// The character of a digit in base sixteen, with lower case letters.
pub open spec fn digit_char(d: int) -> char {
    if d < 10 {
        (48 + d) as char
    } else {
        (87 + d) as char
    }
}

/// A number in base ten, without leading zeros.
pub open spec fn decimal(n: nat) -> Seq<char>
    decreases n,
{
    if n < 10 {
        seq![digit_char(n as int)]
    } else {
        decimal(n / 10).push(digit_char((n % 10) as int))
    }
}

/// A number in base ten, with a minus sign where it is negative.
pub open spec fn signed_decimal(n: int) -> Seq<char> {
    if n < 0 {
        seq!['-'] + decimal((-n) as nat)
    } else {
        decimal(n as nat)
    }
}

/// A number in base ten, with zeros in front up to `width` digits.
pub open spec fn padded(n: nat, width: nat) -> Seq<char> {
    let text = decimal(n);
    if text.len() < width {
        Seq::new((width - text.len()) as nat, |i: int| '0') + text
    } else {
        text
    }
}

/// The last `width` digits of a number in base sixteen.
pub open spec fn hexadecimal(n: nat, width: nat) -> Seq<char>
    decreases width,
{
    if width == 0 {
        Seq::empty()
    } else {
        hexadecimal(n / 16, (width - 1) as nat).push(digit_char((n % 16) as int))
    }
}

fn digit_text(d: u64) -> (res: &'static str)
    requires
        d < 16,
    ensures
        res@ == seq![digit_char(d as int)],
{
    proof {
        reveal_strlit("0");
        reveal_strlit("1");
        reveal_strlit("2");
        reveal_strlit("3");
        reveal_strlit("4");
        reveal_strlit("5");
        reveal_strlit("6");
        reveal_strlit("7");
        reveal_strlit("8");
        reveal_strlit("9");
        reveal_strlit("a");
        reveal_strlit("b");
        reveal_strlit("c");
        reveal_strlit("d");
        reveal_strlit("e");
        reveal_strlit("f");
    }
    match d {
        0 => "0",
        1 => "1",
        2 => "2",
        3 => "3",
        4 => "4",
        5 => "5",
        6 => "6",
        7 => "7",
        8 => "8",
        9 => "9",
        10 => "a",
        11 => "b",
        12 => "c",
        13 => "d",
        14 => "e",
        _ => "f",
    }
}

/// `n` in base ten.
pub fn u64_text(n: u64) -> (res: String)
    ensures
        res@ == decimal(n as nat),
    decreases n,
{
    if n < 10 {
        digit_text(n).to_owned()
    } else {
        let mut text: String = u64_text(n / 10);
        text.append(digit_text(n % 10));
        assert(text@ =~= decimal(n as nat));
        text
    }
}

/// `n` in base ten, with its sign where it is negative.
pub fn i64_text(n: i64) -> (res: String)
    ensures
        res@ == signed_decimal(n as int),
{
    if n >= 0 {
        u64_text(n as u64)
    } else {
        let magnitude: u64 = if n == i64::MIN {
            0x8000_0000_0000_0000
        } else {
            (-n) as u64
        };
        let mut text: String = "-".to_owned();
        text.append(u64_text(magnitude).as_str());
        proof {
            reveal_strlit("-");
            assert("-"@ =~= seq!['-']);
        }
        text
    }
}

/// `n` in base ten, at least two digits wide.
pub fn two_digits(n: u64) -> (res: String)
    ensures
        res@ == padded(n as nat, 2),
{
    let text: String = u64_text(n);
    if n < 10 {
        let mut wide: String = "0".to_owned();
        wide.append(text.as_str());
        proof {
            reveal_strlit("0");
            assert(wide@ =~= padded(n as nat, 2));
        }
        wide
    } else {
        proof {
            lemma_decimal_len((n / 10) as nat);
        }
        text
    }
}

proof fn lemma_decimal_len(n: nat)
    ensures
        decimal(n).len() >= 1,
    decreases n,
{
    if n >= 10 {
        lemma_decimal_len(n / 10);
    }
}

/// `n` in base sixteen, eight digits wide.
pub fn hex_text(n: u32) -> (res: String)
    ensures
        res@ == hexadecimal(n as nat, 8),
{
    let mut text: String = String::new();
    let mut rest: Vec<u64> = Vec::new();
    let mut m: u64 = n as u64;
    rest.push(m);
    let mut k: usize = 0;
    while k < 7
        invariant
            k <= 7,
            rest@.len() == k + 1,
            m == rest@[k as int],
            rest@[0] == n,
            forall|j: int| 0 <= j < k ==> #[trigger] rest@[j + 1] == rest@[j] / 16,
        decreases 7 - k,
    {
        m = m / 16;
        rest.push(m);
        k = k + 1;
    }
    let mut i: usize = 0;
    proof {
        reveal_with_fuel(hexadecimal, 1);
    }
    while i < 8
        invariant
            i <= 8,
            rest@.len() == 8,
            rest@[0] == n,
            forall|j: int| 0 <= j < 7 ==> #[trigger] rest@[j + 1] == rest@[j] / 16,
            i == 0 ==> text@ == hexadecimal(0, 0),
            i > 0 ==> text@ == hexadecimal(rest@[8 - i] as nat, i as nat),
        decreases 8 - i,
    {
        let ghost before = text@;
        let value: u64 = rest[7 - i];
        text.append(digit_text(value % 16));
        proof {
            assert(text@ =~= before.push(digit_char((value % 16) as int)));
            if i > 0 {
                let j = 7 - i;
                assert(rest@[j + 1] == rest@[j as int] / 16);
                assert(hexadecimal((value / 16) as nat, i as nat) == before);
            } else {
                assert(hexadecimal((value / 16) as nat, 0) =~= before);
            }
            assert(hexadecimal(value as nat, (i + 1) as nat) =~= before.push(
                digit_char((value % 16) as int),
            ));
        }
        i = i + 1;
    }
    text
}

/// The two digits of a number below a hundred.
pub proof fn lemma_two_digits(n: nat)
    requires
        n < 100,
    ensures
        padded(n, 2) == seq![digit_char((n / 10) as int), digit_char((n % 10) as int)],
{
    reveal_with_fuel(decimal, 3);
    assert(padded(n, 2) =~= seq![digit_char((n / 10) as int), digit_char((n % 10) as int)]);
}

/// The four digits of a number below ten thousand.
pub proof fn lemma_four_digits(n: nat)
    requires
        n < 10000,
    ensures
        padded(n, 4) == seq![
            digit_char((n / 1000) as int),
            digit_char(((n / 100) % 10) as int),
            digit_char(((n / 10) % 10) as int),
            digit_char((n % 10) as int),
        ],
{
    reveal_with_fuel(decimal, 5);
    assert(n / 10 / 10 == n / 100);
    assert(n / 10 / 10 / 10 == n / 1000);
    assert(padded(n, 4) =~= seq![
        digit_char((n / 1000) as int),
        digit_char(((n / 100) % 10) as int),
        digit_char(((n / 10) % 10) as int),
        digit_char((n % 10) as int),
    ]);
}

/// The number that a text of digits stands for.
pub open spec fn decimal_value(text: Seq<char>) -> int
    decreases text.len(),
{
    if text.len() == 0 {
        0
    } else {
        decimal_value(text.drop_last()) * 10 + (text.last() as int - '0' as int)
    }
}

/// A number in base ten reads back as the number, is made of digits, and has no zero in
/// front unless it is zero.
pub proof fn law_decimal(n: nat)
    ensures
        decimal_value(decimal(n)) == n,
        decimal(n).len() >= 1,
        forall|i: int| 0 <= i < decimal(n).len() ==> '0' <= #[trigger] decimal(n)[i] <= '9',
        n > 0 ==> decimal(n)[0] != '0',
    decreases n,
{
    if n < 10 {
        let text = decimal(n);
        assert(text =~= seq![digit_char(n as int)]);
        assert(text.drop_last() =~= Seq::empty());
        assert(decimal_value(text.drop_last()) == 0);
    } else {
        let text = decimal(n);
        law_decimal(n / 10);
        assert(text.drop_last() =~= decimal(n / 10));
        assert(text[0] == decimal(n / 10)[0]);
        assert forall|i: int| 0 <= i < text.len() implies '0' <= #[trigger] text[i] <= '9' by {
            if i < text.len() - 1 {
                assert(text[i] == decimal(n / 10)[i]);
            }
        }
    }
}

/// A negative number has a minus sign before its magnitude, another one none.
pub proof fn law_signed_decimal(n: int)
    ensures
        n < 0 ==> signed_decimal(n)[0] == '-' && decimal_value(signed_decimal(n).skip(1)) == -n,
        n >= 0 ==> decimal_value(signed_decimal(n)) == n && signed_decimal(n)[0] != '-',
{
    if n < 0 {
        law_decimal((-n) as nat);
        assert(signed_decimal(n).skip(1) =~= decimal((-n) as nat));
    } else {
        law_decimal(n as nat);
    }
}

proof fn lemma_leading_zeros(zeros: nat, text: Seq<char>)
    ensures
        decimal_value(Seq::new(zeros, |i: int| '0') + text) == decimal_value(text),
    decreases zeros + text.len(),
{
    let all = Seq::new(zeros, |i: int| '0') + text;
    if text.len() > 0 {
        lemma_leading_zeros(zeros, text.drop_last());
        assert(all.drop_last() =~= Seq::new(zeros, |i: int| '0') + text.drop_last());
        assert(all.last() == text.last());
    } else if zeros > 0 {
        let fewer = (zeros - 1) as nat;
        lemma_leading_zeros(fewer, text);
        assert(all.drop_last() =~= Seq::new(fewer, |i: int| '0') + text);
        assert(all.last() == '0');
    } else {
        assert(all =~= text);
    }
}

/// Padding adds zeros in front up to the width and leaves the number as it is.
pub proof fn law_padded(n: nat, width: nat)
    ensures
        decimal_value(padded(n, width)) == n,
        padded(n, width).len() >= width,
        padded(n, width).len() == width || padded(n, width) == decimal(n),
{
    law_decimal(n);
    let text = decimal(n);
    if text.len() < width {
        lemma_leading_zeros((width - text.len()) as nat, text);
    }
}

/// A number in base sixteen has the asked number of digits, of which the last stands for
/// the remainder and those before it for the quotient by sixteen.
pub proof fn law_hexadecimal(n: nat, width: nat, d: int)
    requires
        0 <= d < 16,
    ensures
        hexadecimal(n, width).len() == width,
        hexadecimal((n * 16 + d) as nat, width + 1) == hexadecimal(n, width).push(
            "0123456789abcdef"@[d],
        ),
    decreases width,
{
    reveal_strlit("0123456789abcdef");
    if width > 0 {
        law_hexadecimal(n / 16, (width - 1) as nat, d);
    }
    let m = (n * 16 + d) as nat;
    assert(m / 16 == n && m % 16 == d);
    assert(digit_char(d) == "0123456789abcdef"@[d]);
}

} // verus!
