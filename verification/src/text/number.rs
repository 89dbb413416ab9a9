//! Integers in decimal notation, and padded columns.

use vstd::prelude::*;

use crate::text::chars_of;

verus! {

/// The character of a digit.
pub open spec fn digit(d: nat) -> char {
    (d + 48) as char
}

/// A natural number in decimal notation.
pub open spec fn decimal(n: nat) -> Seq<char>
    decreases n,
{
    if n < 10 {
        seq![digit(n)]
    } else {
        decimal(n / 10).push(digit(n % 10))
    }
}

/// An integer in decimal notation, with a minus sign when it is negative.
pub open spec fn decimal_int(i: int) -> Seq<char> {
    if i < 0 {
        seq!['-'] + decimal((-i) as nat)
    } else {
        decimal(i as nat)
    }
}

/// Whether `c` is one of the ASCII digits.
pub open spec fn is_digit(c: char) -> bool {
    '0' <= c <= '9'
}

/// Whether every character is an ASCII digit.
pub open spec fn all_digits(s: Seq<char>) -> bool {
    forall|i: int| 0 <= i < s.len() ==> is_digit(#[trigger] s[i])
}

/// The number that a string of digits denotes.
pub open spec fn value_of(s: Seq<char>) -> nat
    decreases s.len(),
{
    if s.len() == 0 {
        0
    } else {
        value_of(s.drop_last()) * 10 + (s.last() as nat - 48) as nat
    }
}

/// `n` spaces.
pub open spec fn spaces(n: nat) -> Seq<char> {
    Seq::new(n, |i: int| ' ')
}

/// `s` with spaces in front up to the width.
pub open spec fn pad_left(s: Seq<char>, width: nat) -> Seq<char> {
    if s.len() < width {
        spaces((width - s.len()) as nat) + s
    } else {
        s
    }
}

/// `s` with spaces behind up to the width.
pub open spec fn pad_right(s: Seq<char>, width: nat) -> Seq<char> {
    if s.len() < width {
        s + spaces((width - s.len()) as nat)
    } else {
        s
    }
}

/// Decimal notation denotes the number it was made from.
pub proof fn decimal_denotes(n: nat)
    ensures
        all_digits(decimal(n)),
        decimal(n).len() > 0,
        value_of(decimal(n)) == n,
    decreases n,
{
    if n < 10 {
        let s = seq![digit(n)];
        assert(s.drop_last() =~= Seq::<char>::empty());
        assert(value_of(s.drop_last()) == 0);
    } else {
        decimal_denotes(n / 10);
        let s = decimal(n);
        assert(s.drop_last() =~= decimal(n / 10));
        assert(s.last() == digit(n % 10));
        assert forall|i: int| 0 <= i < s.len() implies is_digit(#[trigger] s[i]) by {
            if i < s.len() - 1 {
                assert(s[i] == decimal(n / 10)[i]);
            }
        }
    }
}

/// Two integers with the same notation are equal.
pub proof fn decimal_int_is_injective(a: int, b: int)
    requires
        decimal_int(a) == decimal_int(b),
    ensures
        a == b,
{
    let na: nat = if a < 0 { (-a) as nat } else { a as nat };
    let nb: nat = if b < 0 { (-b) as nat } else { b as nat };
    decimal_denotes(na);
    decimal_denotes(nb);
    if a < 0 && b < 0 {
        assert(decimal_int(a).drop_first() =~= decimal(na));
        assert(decimal_int(b).drop_first() =~= decimal(nb));
    } else if a < 0 {
        assert(is_digit(decimal(nb)[0]));
        assert(decimal_int(a)[0] == '-');
    } else if b < 0 {
        assert(is_digit(decimal(na)[0]));
        assert(decimal_int(b)[0] == '-');
    }
}

/// The character of a digit.
pub fn digit_char(d: u64) -> (c: char)
    requires
        d < 10,
    ensures
        c == digit(d as nat),
{
    if d == 0 {
        '0'
    } else if d == 1 {
        '1'
    } else if d == 2 {
        '2'
    } else if d == 3 {
        '3'
    } else if d == 4 {
        '4'
    } else if d == 5 {
        '5'
    } else if d == 6 {
        '6'
    } else if d == 7 {
        '7'
    } else if d == 8 {
        '8'
    } else {
        '9'
    }
}

/// A number in decimal notation.
pub fn u128_text(n: u128) -> (r: String)
    ensures
        r@ == decimal(n as nat),
    decreases n,
{
    if n < 10 {
        let mut s = String::new();
        s.push(digit_char(n as u64));
        assert(s@ =~= seq![digit(n as nat)]);
        s
    } else {
        let mut s = u128_text(n / 10);
        s.push(digit_char((n % 10) as u64));
        s
    }
}

/// A number in decimal notation.
pub fn u64_text(n: u64) -> (r: String)
    ensures
        r@ == decimal(n as nat),
{
    u128_text(n as u128)
}

/// A count in decimal notation.
pub fn usize_text(n: usize) -> (r: String)
    ensures
        r@ == decimal(n as nat),
{
    u64_text(n as u64)
}

/// An integer in decimal notation.
pub fn i64_text(i: i64) -> (r: String)
    ensures
        r@ == decimal_int(i as int),
{
    if i < 0 {
        let n: u64 = if i == i64::MIN {
            0x8000_0000_0000_0000u64
        } else {
            (-i) as u64
        };
        let mut s = String::new();
        s.push('-');
        let d = u64_text(n);
        s.append(d.as_str());
        assert(s@ =~= seq!['-'] + decimal(n as nat));
        s
    } else {
        u64_text(i as u64)
    }
}

/// An integer in decimal notation.
pub fn i32_text(i: i32) -> (r: String)
    ensures
        r@ == decimal_int(i as int),
{
    i64_text(i as i64)
}

/// A text with spaces in front up to the width.
pub fn padded_left(s: &str, width: usize) -> (r: String)
    ensures
        r@ == pad_left(s@, width as nat),
{
    let n = chars_of(s).len();
    let mut out = String::new();
    if n < width {
        let mut k: usize = 0;
        while k < width - n
            invariant
                k <= width - n,
                n < width,
                out@ == spaces(k as nat),
            decreases width - n - k,
        {
            out.push(' ');
            assert(spaces((k + 1) as nat) =~= spaces(k as nat).push(' '));
            k += 1;
        }
    }
    out.append(s);
    assert(out@ =~= pad_left(s@, width as nat));
    out
}

/// A text with spaces behind up to the width.
pub fn padded_right(s: &str, width: usize) -> (r: String)
    ensures
        r@ == pad_right(s@, width as nat),
{
    let n = chars_of(s).len();
    let mut out = s.to_owned();
    if n < width {
        let mut k: usize = 0;
        assert(out@ =~= s@ + spaces(0));
        while k < width - n
            invariant
                k <= width - n,
                n < width,
                out@ == s@ + spaces(k as nat),
            decreases width - n - k,
        {
            out.push(' ');
            assert(out@ =~= s@ + spaces((k + 1) as nat));
            k += 1;
        }
    }
    out
}

/// The number that a string of digits denotes, when there is a digit and the
/// number fits.
pub fn parse_digits(v: &[char]) -> (r: Option<i64>)
    requires
        all_digits(v@),
    ensures
        match r {
            Some(n) => v@.len() > 0 && n == value_of(v@),
            None => v@.len() == 0 || value_of(v@) > i64::MAX,
        },
{
    if v.len() == 0 {
        return None;
    }
    let mut n: i64 = 0;
    let mut i: usize = 0;
    while i < v.len()
        invariant
            i <= v.len(),
            all_digits(v@),
            0 <= n,
            n == value_of(v@.take(i as int)),
        decreases v.len() - i,
    {
        let d: i64 = (v[i] as u32) as i64 - 48;
        assert(v@.take(i + 1).drop_last() =~= v@.take(i as int));
        assert(is_digit(v@[i as int]));
        if n > (i64::MAX - d) / 10 {
            proof {
                lemma_value_grows(v@, i + 1);
            }
            return None;
        }
        n = n * 10 + d;
        i += 1;
    }
    assert(v@.take(v.len() as int) =~= v@);
    Some(n)
}

/// A longer string of digits denotes at least as much.
proof fn lemma_value_grows(s: Seq<char>, i: int)
    requires
        all_digits(s),
        0 <= i <= s.len(),
    ensures
        value_of(s.take(i)) <= value_of(s),
    decreases s.len(),
{
    if i == s.len() {
        assert(s.take(i) =~= s);
    } else {
        let d = s.drop_last();
        assert forall|k: int| 0 <= k < d.len() implies is_digit(#[trigger] d[k]) by {
            assert(d[k] == s[k]);
        }
        lemma_value_grows(d, i);
        assert(d.take(i) =~= s.take(i));
    }
}

/// Decimal notation has no leading zeros, and a minus sign in front exactly for what is
/// negative.
pub proof fn decimal_is_written_plainly(n: nat, i: int)
    ensures
        decimal(n)[0] == '0' ==> n == 0 && decimal(n).len() == 1,
        i < 0 ==> decimal_int(i) == seq!['-'] + decimal((-i) as nat),
        i >= 0 ==> decimal_int(i) == decimal(i as nat),
    decreases n,
{
    if n >= 10 {
        decimal_is_written_plainly(n / 10, i);
        decimal_denotes(n / 10);
        assert(decimal(n)[0] == decimal(n / 10)[0]);
    }
}

/// Padding adds spaces on its side up to the width, and leaves a text that is as wide as
/// it is.
pub proof fn padding_adds_spaces_up_to_the_width(s: Seq<char>, width: nat)
    ensures
        s.len() >= width ==> pad_left(s, width) == s && pad_right(s, width) == s,
        s.len() < width ==> pad_left(s, width).len() == width && pad_right(s, width).len() == width,
        s.len() < width ==> pad_left(s, width).skip(width - s.len()) == s,
        s.len() < width ==> pad_right(s, width).take(s.len() as int) == s,
        forall|k: int| 0 <= k < width - s.len() ==> #[trigger] pad_left(s, width)[k] == ' ',
        forall|k: int| s.len() <= k < width ==> #[trigger] pad_right(s, width)[k] == ' ',
{
    if s.len() < width {
        assert(pad_left(s, width).skip(width - s.len()) =~= s);
        assert(pad_right(s, width).take(s.len() as int) =~= s);
    }
}

} // verus!
