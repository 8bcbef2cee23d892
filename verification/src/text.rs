//! Character-level text building: ASCII filtering, truncation to a number of
//! characters, and decimal rendering of integers.

use vstd::prelude::*;
use vstd::string::*;

verus! {

/// `c` is an ASCII character (code point below 128).
pub open spec fn is_ascii_char(c: char) -> bool {
    '\0' <= c <= '\u{7f}'
}

/// The characters of `s` that are ASCII, in the order they come in `s`.
pub open spec fn ascii_only(s: Seq<char>) -> Seq<char>
    decreases s.len(),
{
    if s.len() == 0 {
        s
    } else if is_ascii_char(s.last()) {
        ascii_only(s.drop_last()).push(s.last())
    } else {
        ascii_only(s.drop_last())
    }
}

/// The first `n` characters of `s` (all of `s` when it is shorter).
pub open spec fn first_chars(s: Seq<char>, n: nat) -> Seq<char> {
    if s.len() <= n {
        s
    } else {
        s.take(n as int)
    }
}

/// The decimal digit for `d` (for `d < 10`).
pub open spec fn digit_char(d: nat) -> char {
    if d == 0 {
        '0'
    } else if d == 1 {
        '1'
    } else if d == 2 {
        '2'
    } else if d == 3 {
        '3'
    } else if d == 4 {
        '4'
    } else if d == 5 {
        '5'
    } else if d == 6 {
        '6'
    } else if d == 7 {
        '7'
    } else if d == 8 {
        '8'
    } else {
        '9'
    }
}

/// The decimal representation of `n`, without leading zeros.
pub open spec fn decimal(n: nat) -> Seq<char>
    decreases n,
{
    if n < 10 {
        seq![digit_char(n)]
    } else {
        decimal(n / 10).push(digit_char(n % 10))
    }
}

/// The text of a signed integer as `{}` prints it: a minus sign for
/// negative values, then the decimal digits of the magnitude.
pub open spec fn int_text(x: int) -> Seq<char> {
    if x < 0 {
        seq!['-'] + decimal((-x) as nat)
    } else {
        decimal(x as nat)
    }
}

/// The text of `x` as `{:02}` prints it: zero-padded to two characters;
/// only a single decimal digit is short enough to be padded.
pub open spec fn zero_padded2(x: int) -> Seq<char> {
    if 0 <= x < 10 {
        seq!['0'] + decimal(x as nat)
    } else {
        int_text(x)
    }
}

/// Quotient of `a` by `b` rounded toward zero, as Rust's integer `/` does.
pub open spec fn trunc_div(a: int, b: int) -> int
    recommends
        b > 0,
{
    if a >= 0 {
        a / b
    } else {
        -((-a) / b)
    }
}

/// Remainder that goes with `trunc_div`, as Rust's integer `%` does; its
/// sign follows `a`.
pub open spec fn trunc_rem(a: int, b: int) -> int
    recommends
        b > 0,
{
    a - b * trunc_div(a, b)
}

/// Every decimal rendering holds at least one character, all of them ASCII.
pub proof fn lemma_decimal_ascii(n: nat)
    ensures
        decimal(n).len() >= 1,
        forall|i: int| 0 <= i < decimal(n).len() ==> is_ascii_char(#[trigger] decimal(n)[i]),
    decreases n,
{
    if n >= 10 {
        lemma_decimal_ascii(n / 10);
    }
}

/// What `ascii_only` keeps is ASCII and no longer than its input.
pub proof fn lemma_ascii_only(s: Seq<char>)
    ensures
        ascii_only(s).len() <= s.len(),
        forall|i: int| 0 <= i < ascii_only(s).len() ==> is_ascii_char(#[trigger] ascii_only(s)[i]),
    decreases s.len(),
{
    if s.len() > 0 {
        lemma_ascii_only(s.drop_last());
    }
}

/// Appends `c` to `s` by `String::push`. Claimed, as std documents it: the
/// string afterwards is the old one followed by `c`.
#[verifier::external_body]
pub(crate) fn push_char(s: &mut String, c: char)
    ensures
        final(s)@ == old(s)@.push(c),
{
    s.push(c)
}

/// Appends the characters of `t` to `s`.
pub(crate) fn push_str(s: &mut String, t: &str)
    ensures
        final(s)@ == old(s)@ + t@,
{
    s.append(t);
}

/// The characters of `s`, in order.
pub fn char_vec(s: &str) -> (res: Vec<char>)
    ensures
        res@ == s@,
{
    let mut res: Vec<char> = Vec::new();
    for c in it: s.chars()
        invariant
            res@ == it.seq().take(it.index()),
    {
        res.push(c);
    }
    res
}

/// The ASCII characters of `s`, in order; every other character is dropped.
pub fn retain_ascii(s: &str) -> (res: String)
    ensures
        res@ == ascii_only(s@),
{
    let chars = char_vec(s);
    let mut res = String::new();
    let mut i: usize = 0;
    while i < chars.len()
        invariant
            chars@ == s@,
            i <= chars.len(),
            res@ == ascii_only(s@.take(i as int)),
        decreases chars.len() - i,
    {
        let c = chars[i];
        assert(s@.take(i + 1).drop_last() =~= s@.take(i as int));
        if '\0' <= c && c <= '\u{7f}' {
            push_char(&mut res, c);
        }
        i = i + 1;
    }
    assert(s@.take(chars.len() as int) =~= s@);
    res
}

/// The first `n` characters of `s`.
pub fn take_chars(s: &str, n: usize) -> (res: String)
    ensures
        res@ == first_chars(s@, n as nat),
{
    let chars = char_vec(s);
    let len = chars.len();
    let stop = if len < n { len } else { n };
    let mut res = String::new();
    let mut i: usize = 0;
    while i < stop
        invariant
            chars@ == s@,
            len == s@.len(),
            stop <= len,
            stop <= n,
            stop == len || stop == n,
            i <= stop,
            res@ == s@.take(i as int),
        decreases stop - i,
    {
        let c = chars[i];
        assert(s@.take(i + 1) =~= s@.take(i as int).push(c));
        push_char(&mut res, c);
        i = i + 1;
    }
    if len <= n {
        assert(s@.take(len as int) =~= s@);
    }
    res
}

/// The character of the decimal digit `d`.
fn digit(d: u64) -> (c: char)
    requires
        d < 10,
    ensures
        c == digit_char(d as nat),
{
    if d == 0 {
        '0'
    } else if d == 1 {
        '1'
    } else if d == 2 {
        '2'
    } else if d == 3 {
        '3'
    } else if d == 4 {
        '4'
    } else if d == 5 {
        '5'
    } else if d == 6 {
        '6'
    } else if d == 7 {
        '7'
    } else if d == 8 {
        '8'
    } else {
        '9'
    }
}

/// Appends the decimal digits of `n` to `s`.
pub(crate) fn push_decimal(s: &mut String, n: u64)
    ensures
        final(s)@ == old(s)@ + decimal(n as nat),
    decreases n,
{
    if n >= 10 {
        push_decimal(s, n / 10);
    }
    push_char(s, digit(n % 10));
    proof {
        if n >= 10 {
            assert(decimal(n as nat) == decimal((n / 10) as nat).push(digit_char((n % 10) as nat)));
        }
    }
    assert(final(s)@ =~= old(s)@ + decimal(n as nat));
}

/// Appends `x` as `{}` prints an `i64`.
pub(crate) fn push_int(s: &mut String, x: i64)
    ensures
        final(s)@ == old(s)@ + int_text(x as int),
{
    if x < 0 {
        push_char(s, '-');
        let magnitude: u64 = (-(x as i128)) as u64;
        push_decimal(s, magnitude);
    } else {
        push_decimal(s, x as u64);
    }
    assert(final(s)@ =~= old(s)@ + int_text(x as int));
}

/// Appends `x` as `{:02}` prints an `i64`.
pub(crate) fn push_int_padded2(s: &mut String, x: i64)
    ensures
        final(s)@ == old(s)@ + zero_padded2(x as int),
{
    if 0 <= x && x < 10 {
        push_char(s, '0');
        push_decimal(s, x as u64);
        assert(final(s)@ =~= old(s)@ + zero_padded2(x as int));
    } else {
        push_int(s, x);
    }
}

/// The decimal text of `n`, as `n.to_string()` gives it.
pub fn decimal_text(n: u64) -> (res: String)
    ensures
        res@ == decimal(n as nat),
{
    let mut res = String::new();
    push_decimal(&mut res, n);
    assert(res@ =~= decimal(n as nat));
    res
}

} // verus!

verus! {

/// `ascii_only` keeps exactly the characters between `'\0'` and `'\u{7f}'`,
/// in order: it is the filter of `s` by that range.
pub proof fn lemma_ascii_only_is_filter(s: Seq<char>)
    ensures
        ascii_only(s) == s.filter(|c: char| '\0' <= c <= '\u{7f}'),
    decreases s.len(),
{
    reveal_with_fuel(Seq::<_>::filter, 1);
    if s.len() > 0 {
        lemma_ascii_only_is_filter(s.drop_last());
    }
}

/// A string made only of ASCII characters passes `ascii_only` unchanged,
/// and a string without any ASCII character leaves nothing.
pub proof fn lemma_ascii_only_identity(s: Seq<char>)
    ensures
        (forall|i: int| 0 <= i < s.len() ==> '\0' <= #[trigger] s[i] <= '\u{7f}') ==> ascii_only(s)
            == s,
        (forall|i: int| 0 <= i < s.len() ==> !('\0' <= #[trigger] s[i] <= '\u{7f}'))
            ==> ascii_only(s).len() == 0,
    decreases s.len(),
{
    if s.len() > 0 {
        lemma_ascii_only_identity(s.drop_last());
        if forall|i: int| 0 <= i < s.len() ==> '\0' <= #[trigger] s[i] <= '\u{7f}' {
            assert forall|i: int| 0 <= i < s.drop_last().len() implies '\0' <= #[trigger] s.drop_last()[i]
                <= '\u{7f}' by {
                assert(s.drop_last()[i] == s[i]);
            }
            assert(s.last() == s[s.len() - 1]);
            assert(s.drop_last().push(s.last()) =~= s);
        }
        if forall|i: int| 0 <= i < s.len() ==> !('\0' <= #[trigger] s[i] <= '\u{7f}') {
            assert forall|i: int| 0 <= i < s.drop_last().len() implies !('\0'
                <= #[trigger] s.drop_last()[i] <= '\u{7f}') by {
                assert(s.drop_last()[i] == s[i]);
            }
            assert(s.last() == s[s.len() - 1]);
        }
    }
}

/// The value of a string of decimal digits, read most significant first.
pub open spec fn decimal_value(s: Seq<char>) -> int
    decreases s.len(),
{
    if s.len() == 0 {
        0
    } else {
        decimal_value(s.drop_last()) * 10 + (s.last() as int - '0' as int)
    }
}

proof fn lemma_digit_value(d: nat)
    requires
        d < 10,
    ensures
        digit_char(d) as int - '0' as int == d,
        '0' <= digit_char(d) <= '9',
{
    assert('0' as int == 48);
    if d == 0 {
    } else if d == 1 {
        assert('1' as int == 49);
    } else if d == 2 {
        assert('2' as int == 50);
    } else if d == 3 {
        assert('3' as int == 51);
    } else if d == 4 {
        assert('4' as int == 52);
    } else if d == 5 {
        assert('5' as int == 53);
    } else if d == 6 {
        assert('6' as int == 54);
    } else if d == 7 {
        assert('7' as int == 55);
    } else if d == 8 {
        assert('8' as int == 56);
    } else {
        assert('9' as int == 57);
    }
}

/// `decimal(n)` is the decimal numeral of `n`: it holds only the digits
/// `'0'`..`'9'`, reads back as `n`, and starts with `'0'` only for `n == 0`.
pub proof fn lemma_decimal_reads_back(n: nat)
    ensures
        decimal(n).len() >= 1,
        forall|i: int| 0 <= i < decimal(n).len() ==> '0' <= #[trigger] decimal(n)[i] <= '9',
        decimal_value(decimal(n)) == n,
        decimal(n)[0] == '0' ==> n == 0 && decimal(n).len() == 1,
    decreases n,
{
    lemma_digit_value((n % 10) as nat);
    if n < 10 {
        assert(n % 10 == n);
        let d = decimal(n);
        assert(d.drop_last() =~= Seq::<char>::empty());
        assert(decimal_value(d.drop_last()) == 0);
        assert(d.last() == digit_char(n));
        assert(decimal_value(d) == decimal_value(d.drop_last()) * 10 + (d.last() as int - '0' as int));
    }
    if n >= 10 {
        lemma_decimal_reads_back(n / 10);
        let d = decimal(n);
        assert(d.drop_last() =~= decimal(n / 10));
        assert(d.last() == digit_char((n % 10) as nat));
        assert(d[0] == decimal(n / 10)[0]);
        assert((n / 10) * 10 + n % 10 == n);
        assert(decimal_value(d) == decimal_value(d.drop_last()) * 10 + (d.last() as int - '0' as int));
    }
}

/// A negative number's text is a minus sign before the numeral of its
/// magnitude; any other number's text is its numeral.
pub proof fn lemma_int_text_reads_back(x: int)
    ensures
        x < 0 ==> int_text(x)[0] == '-' && int_text(x).len() >= 2 && decimal_value(
            int_text(x).skip(1),
        ) == -x,
        x >= 0 ==> decimal_value(int_text(x)) == x && forall|i: int|
            0 <= i < int_text(x).len() ==> '0' <= #[trigger] int_text(x)[i] <= '9',
{
    if x < 0 {
        lemma_decimal_reads_back((-x) as nat);
        assert(int_text(x).skip(1) =~= decimal((-x) as nat));
    } else {
        lemma_decimal_reads_back(x as nat);
    }
}

} // verus!
