//! Character-level building blocks: decimal rendering, whitespace trimming and
//! integer parsing, all stated over `Seq<char>`.

use vstd::prelude::*;

verus! {

/// Appends one character to a string.
///
/// Trusted: wraps `String::push`, which adds exactly the given character at
/// the end of the string and changes nothing else.
#[verifier::external_body]
pub(crate) fn push_char(s: &mut String, c: char)
    ensures
        final(s)@ == old(s)@.push(c),
{
    s.push(c)
}

/// The characters of a string slice, in order.
pub fn str_chars(s: &str) -> (out: Vec<char>)
    ensures
        out@ == s@,
{
    let mut out: Vec<char> = Vec::new();
    for c in it: s.chars()
        invariant
            it.seq() == s@,
            out@ == it.seq().take(it.index() as int),
    {
        out.push(c);
    }
    out
}

/// Appends the characters `chars[from..to]` to `out`.
pub fn push_range(out: &mut String, chars: &Vec<char>, from: usize, to: usize)
    requires
        from <= to <= chars@.len(),
    ensures
        final(out)@ == old(out)@ + chars@.subrange(from as int, to as int),
{
    let mut i: usize = from;
    while i < to
        invariant
            from <= i <= to <= chars@.len(),
            out@ == old(out)@ + chars@.subrange(from as int, i as int),
        decreases to - i,
    {
        push_char(out, chars[i]);
        i += 1;
        assert(chars@.subrange(from as int, i as int) == chars@.subrange(
            from as int,
            i as int - 1,
        ).push(chars@[i as int - 1]));
    }
}

/// A string made of the characters `chars[from..to]`.
pub fn string_from_range(chars: &Vec<char>, from: usize, to: usize) -> (out: String)
    requires
        from <= to <= chars@.len(),
    ensures
        out@ == chars@.subrange(from as int, to as int),
{
    let mut out = String::new();
    push_range(&mut out, chars, from, to);
    out
}

/// Whether two string slices hold the same characters.
pub fn str_equal(a: &str, b: &str) -> (same: bool)
    ensures
        same == (a@ == b@),
{
    let x = a.to_owned();
    let y = b.to_owned();
    x == y
}

/// The character that stands for a decimal digit.
pub open spec fn digit_char(d: nat) -> char {
    if d == 0 {
        '0'
    } else if d == 1 {
        '1'
    } else if d == 2 {
        '2'
    } else if d == 3 {
        '3'
    } else if d == 4 {
        '4'
    } else if d == 5 {
        '5'
    } else if d == 6 {
        '6'
    } else if d == 7 {
        '7'
    } else if d == 8 {
        '8'
    } else {
        '9'
    }
}

/// The decimal digits of `n`, most significant first, without leading zeros
/// (a single `0` for zero).
pub open spec fn decimal_digits(n: nat) -> Seq<char>
    decreases n,
{
    if n < 10 {
        seq![digit_char(n)]
    } else {
        decimal_digits(n / 10).push(digit_char(n % 10))
    }
}

/// `n` in decimal, filled with zeros on the left up to `width` characters.
/// A number with more digits than `width` is written in full.
pub open spec fn zero_padded(n: nat, width: nat) -> Seq<char> {
    let digits = decimal_digits(n);
    if digits.len() >= width {
        digits
    } else {
        Seq::new((width - digits.len()) as nat, |i: int| '0') + digits
    }
}

/// A signed number in decimal with sign-aware zero filling: the minus sign
/// counts towards `width`.
pub open spec fn signed_zero_padded(v: int, width: nat) -> Seq<char> {
    if v < 0 {
        seq!['-'] + zero_padded((-v) as nat, if width > 0 {
            (width - 1) as nat
        } else {
            0
        })
    } else {
        zero_padded(v as nat, width)
    }
}

/// A signed number in decimal without filling.
pub open spec fn signed_decimal(v: int) -> Seq<char> {
    signed_zero_padded(v, 0)
}

fn digit_of(d: u128) -> (c: char)
    requires
        d < 10,
    ensures
        c == digit_char(d as nat),
{
    if d == 0 {
        '0'
    } else if d == 1 {
        '1'
    } else if d == 2 {
        '2'
    } else if d == 3 {
        '3'
    } else if d == 4 {
        '4'
    } else if d == 5 {
        '5'
    } else if d == 6 {
        '6'
    } else if d == 7 {
        '7'
    } else if d == 8 {
        '8'
    } else {
        '9'
    }
}

/// Ten to the power `k`.
pub open spec fn ten_to(k: nat) -> nat
    decreases k,
{
    if k == 0 {
        1
    } else {
        10 * ten_to((k - 1) as nat)
    }
}

/// A number below `10^k` has at most `k` digits.
pub proof fn lemma_decimal_len_below(n: nat, k: nat)
    requires
        k >= 1,
        n < ten_to(k),
    ensures
        decimal_digits(n).len() <= k,
    decreases k,
{
    reveal_with_fuel(ten_to, 2);
    if n >= 10 {
        lemma_decimal_len_below(n / 10, (k - 1) as nat);
    }
}

/// The number of decimal digits of `n`.
fn decimal_len(n: u128) -> (len: usize)
    ensures
        len == decimal_digits(n as nat).len(),
        1 <= len <= 39,
    decreases n,
{
    proof {
        assert(ten_to(39) == 1000000000000000000000000000000000000000nat) by {
            reveal_with_fuel(ten_to, 40);
        }
        lemma_decimal_len_below(n as nat, 39);
    }
    if n < 10 {
        1
    } else {
        let rest = decimal_len(n / 10);
        rest + 1
    }
}

/// Appends `n` in decimal.
pub fn push_decimal(out: &mut String, n: u128)
    ensures
        final(out)@ == old(out)@ + decimal_digits(n as nat),
    decreases n,
{
    if n >= 10 {
        push_decimal(out, n / 10);
    }
    push_char(out, digit_of(n % 10));
    assert(out@ == old(out)@ + decimal_digits(n as nat));
}

/// Appends `n` in decimal, zero-filled on the left up to `width` characters.
pub fn push_zero_padded(out: &mut String, n: u128, width: usize)
    ensures
        final(out)@ == old(out)@ + zero_padded(n as nat, width as nat),
{
    let len = decimal_len(n);
    let ghost before = out@;
    if len < width {
        let fill: usize = width - len;
        let mut i: usize = 0;
        while i < fill
            invariant
                i <= fill,
                out@ == before + Seq::new(i as nat, |k: int| '0'),
            decreases fill - i,
        {
            push_char(out, '0');
            i += 1;
            assert(Seq::new(i as nat, |k: int| '0') == Seq::new((i - 1) as nat, |k: int| '0').push(
                '0',
            ));
        }
    } else {
        assert(out@ == before + Seq::<char>::empty());
    }
    push_decimal(out, n);
    assert(out@ == before + zero_padded(n as nat, width as nat));
}

/// Appends a signed number in decimal with sign-aware zero filling.
pub fn push_signed_zero_padded(out: &mut String, v: i64, width: usize)
    ensures
        final(out)@ == old(out)@ + signed_zero_padded(v as int, width as nat),
{
    if v < 0 {
        let magnitude: u128 = (-(v as i128)) as u128;
        let rest: usize = if width > 0 {
            width - 1
        } else {
            0
        };
        push_char(out, '-');
        push_zero_padded(out, magnitude, rest);
        assert(out@ == old(out)@ + signed_zero_padded(v as int, width as nat));
    } else {
        push_zero_padded(out, v as u128, width);
    }
}

/// Appends a signed number in decimal.
pub fn push_signed(out: &mut String, v: i64)
    ensures
        final(out)@ == old(out)@ + signed_decimal(v as int),
{
    push_signed_zero_padded(out, v, 0);
}

/// Whether the character is white space in the sense of Unicode's
/// `White_Space` property, which is what trimming removes.
pub open spec fn is_whitespace(c: char) -> bool {
    let u = c as u32;
    ||| 0x09 <= u <= 0x0d
    ||| u == 0x20
    ||| u == 0x85
    ||| u == 0xa0
    ||| u == 0x1680
    ||| 0x2000 <= u <= 0x200a
    ||| u == 0x2028
    ||| u == 0x2029
    ||| u == 0x202f
    ||| u == 0x205f
    ||| u == 0x3000
}

/// Executable form of [`is_whitespace`].
pub fn is_whitespace_char(c: char) -> (ws: bool)
    ensures
        ws == is_whitespace(c),
{
    let u: u32 = c as u32;
    (0x09 <= u && u <= 0x0d) || u == 0x20 || u == 0x85 || u == 0xa0 || u == 0x1680 || (0x2000 <= u
        && u <= 0x200a) || u == 0x2028 || u == 0x2029 || u == 0x202f || u == 0x205f || u == 0x3000
}

/// The first index in `[from, to)` whose character is not white space, or
/// `to` where there is none.
pub open spec fn trim_start_in(s: Seq<char>, from: int, to: int) -> int
    decreases to - from,
{
    if from >= to {
        to
    } else if is_whitespace(s[from]) {
        trim_start_in(s, from + 1, to)
    } else {
        from
    }
}

/// The end of `[from, to)` once trailing white space is left out.
pub open spec fn trim_end_in(s: Seq<char>, from: int, to: int) -> int
    decreases to - from,
{
    if to <= from {
        from
    } else if is_whitespace(s[to - 1]) {
        trim_end_in(s, from, to - 1)
    } else {
        to
    }
}

/// The characters of `[from, to)` without leading and trailing white
/// space.
pub open spec fn trimmed_range(s: Seq<char>, from: int, to: int) -> Seq<char> {
    s.subrange(
        trim_start_in(s, from, to),
        trim_end_in(s, trim_start_in(s, from, to), to),
    )
}

/// A text without leading and trailing white space.
pub open spec fn trimmed(s: Seq<char>) -> Seq<char> {
    trimmed_range(s, 0, s.len() as int)
}

/// The bounds of `[from, to)` without leading and trailing white space.
pub fn trim_range(chars: &Vec<char>, from: usize, to: usize) -> (bounds: (usize, usize))
    requires
        from <= to <= chars@.len(),
    ensures
        bounds.0 == trim_start_in(chars@, from as int, to as int),
        bounds.1 == trim_end_in(chars@, bounds.0 as int, to as int),
        from <= bounds.0 <= bounds.1 <= to,
        chars@.subrange(bounds.0 as int, bounds.1 as int) == trimmed_range(
            chars@,
            from as int,
            to as int,
        ),
{
    let mut a: usize = from;
    while a < to && is_whitespace_char(chars[a])
        invariant
            from <= a <= to <= chars@.len(),
            trim_start_in(chars@, from as int, to as int) == trim_start_in(
                chars@,
                a as int,
                to as int,
            ),
        decreases to - a,
    {
        a += 1;
    }
    let mut b: usize = to;
    while b > a && is_whitespace_char(chars[b - 1])
        invariant
            a <= b <= to <= chars@.len(),
            trim_end_in(chars@, a as int, to as int) == trim_end_in(chars@, a as int, b as int),
        decreases b - a,
    {
        b -= 1;
    }
    (a, b)
}

/// The first index at or after `from` that holds `c`, or the length of the
/// text where there is none.
pub open spec fn index_of(s: Seq<char>, c: char, from: int) -> int
    decreases s.len() - from,
{
    if from >= s.len() {
        s.len() as int
    } else if s[from] == c {
        from
    } else {
        index_of(s, c, from + 1)
    }
}

/// Executable form of [`index_of`].
pub fn find_char(chars: &Vec<char>, c: char, from: usize) -> (at: usize)
    requires
        from <= chars@.len(),
    ensures
        at == index_of(chars@, c, from as int),
        from <= at <= chars@.len(),
        at < chars@.len() ==> chars@[at as int] == c,
        forall|k: int| from <= k < at ==> chars@[k] != c,
{
    let mut i: usize = from;
    while i < chars.len() && chars[i] != c
        invariant
            from <= i <= chars@.len(),
            index_of(chars@, c, from as int) == index_of(chars@, c, i as int),
            forall|k: int| from <= k < i ==> chars@[k] != c,
        decreases chars@.len() - i,
    {
        i += 1;
    }
    i
}

/// Whether the character is an ASCII decimal digit.
pub open spec fn is_digit(c: char) -> bool {
    '0' <= c <= '9'
}

/// The value of an ASCII decimal digit.
pub open spec fn digit_value(c: char) -> int {
    c as u32 - 0x30
}

/// Whether `[from, to)` holds decimal digits only.
pub open spec fn all_digits_in(s: Seq<char>, from: int, to: int) -> bool {
    forall|k: int| from <= k < to ==> is_digit(#[trigger] s[k])
}

/// The number that the digits of `[from, to)` write in decimal.
pub open spec fn digits_value_in(s: Seq<char>, from: int, to: int) -> int
    decreases to - from,
{
    if to <= from {
        0
    } else {
        digits_value_in(s, from, to - 1) * 10 + digit_value(s[to - 1])
    }
}

/// The integer that `[from, to)` writes: an optional sign and at least one
/// decimal digit; none where the text has another form.
pub open spec fn signed_value_in(s: Seq<char>, from: int, to: int) -> Option<int> {
    let negative = from < to && s[from] == '-';
    let body = if from < to && (s[from] == '-' || s[from] == '+') {
        from + 1
    } else {
        from
    };
    if body >= to || !all_digits_in(s, body, to) {
        None
    } else if negative {
        Some(-digits_value_in(s, body, to))
    } else {
        Some(digits_value_in(s, body, to))
    }
}

/// The `i32` that `[from, to)` writes; none where the text is no integer
/// or the integer does not fit.
pub open spec fn i32_value_in(s: Seq<char>, from: int, to: int) -> Option<i32> {
    match signed_value_in(s, from, to) {
        Some(v) => if i32::MIN <= v <= i32::MAX {
            Some(v as i32)
        } else {
            None
        },
        None => None,
    }
}

/// Reads the digits of `[from, to)`; the value is reported up to `limit`
/// and as `limit + 1` beyond it. None where a character is no digit.
fn parse_digits(chars: &Vec<char>, from: usize, to: usize, limit: u64) -> (value: Option<u64>)
    requires
        from <= to <= chars@.len(),
        limit < 0x1000_0000_0000_0000,
    ensures
        value is Some <==> all_digits_in(chars@, from as int, to as int),
        value matches Some(v) ==> v == if digits_value_in(chars@, from as int, to as int) > limit {
            limit + 1
        } else {
            digits_value_in(chars@, from as int, to as int)
        },
{
    let mut acc: u64 = 0;
    let mut i: usize = from;
    while i < to
        invariant
            from <= i <= to <= chars@.len(),
            limit < 0x1000_0000_0000_0000,
            all_digits_in(chars@, from as int, i as int),
            digits_value_in(chars@, from as int, i as int) >= 0,
            acc == if digits_value_in(chars@, from as int, i as int) > limit {
                limit + 1
            } else {
                digits_value_in(chars@, from as int, i as int)
            },
        decreases to - i,
    {
        let c = chars[i];
        if !('0' <= c && c <= '9') {
            assert(!is_digit(chars@[i as int]));
            return None;
        }
        let d: u64 = (c as u32 - 0x30) as u64;
        let next: u64 = acc * 10 + d;
        acc = if next > limit {
            limit + 1
        } else {
            next
        };
        i += 1;
    }
    Some(acc)
}

/// Reads `[from, to)` as an `i32` written in decimal with an optional
/// sign.
pub fn parse_i32_range(chars: &Vec<char>, from: usize, to: usize) -> (value: Option<i32>)
    requires
        from <= to <= chars@.len(),
    ensures
        value == i32_value_in(chars@, from as int, to as int),
{
    let negative = from < to && chars[from] == '-';
    let body: usize = if from < to && (chars[from] == '-' || chars[from] == '+') {
        from + 1
    } else {
        from
    };
    if body >= to {
        return None;
    }
    match parse_digits(chars, body, to, 0x8000_0000) {
        None => None,
        Some(v) => {
            if negative {
                if v > 0x8000_0000 {
                    None
                } else {
                    Some((-(v as i64)) as i32)
                }
            } else {
                if v > 0x7fff_ffff {
                    None
                } else {
                    Some(v as i32)
                }
            }
        },
    }
}

/// The `i32` written in `[from, to)` once white space around it is left
/// out.
pub open spec fn trimmed_i32_in(s: Seq<char>, from: int, to: int) -> Option<i32> {
    i32_value_in(
        s,
        trim_start_in(s, from, to),
        trim_end_in(s, trim_start_in(s, from, to), to),
    )
}

/// Reads `[from, to)`, white space around it left out, as an `i32`.
pub fn parse_trimmed_i32(chars: &Vec<char>, from: usize, to: usize) -> (value: Option<i32>)
    requires
        from <= to <= chars@.len(),
    ensures
        value == trimmed_i32_in(chars@, from as int, to as int),
{
    let (a, b) = trim_range(chars, from, to);
    parse_i32_range(chars, a, b)
}

/// A copy of the characters `chars[from..to]`.
pub fn copy_range(chars: &Vec<char>, from: usize, to: usize) -> (out: Vec<char>)
    requires
        from <= to <= chars@.len(),
    ensures
        out@ == chars@.subrange(from as int, to as int),
{
    let mut out: Vec<char> = Vec::new();
    let mut i: usize = from;
    while i < to
        invariant
            from <= i <= to <= chars@.len(),
            out@ == chars@.subrange(from as int, i as int),
        decreases to - i,
    {
        out.push(chars[i]);
        i += 1;
    }
    out
}

/// The characters of a text without leading and trailing white space.
pub fn trimmed_chars(text: &str) -> (chars: Vec<char>)
    ensures
        chars@ == trimmed(text@),
{
    let raw = str_chars(text);
    let (a, b) = trim_range(&raw, 0, raw.len());
    copy_range(&raw, a, b)
}

/// Whether the first `n` characters of `s` end with `suffix`.
pub open spec fn ends_with_at(s: Seq<char>, n: int, suffix: Seq<char>) -> bool {
    suffix.len() <= n <= s.len() && s.subrange(n - suffix.len(), n) == suffix
}

/// Whether the first `n` characters of `chars` end with `suffix`.
pub fn ends_with(chars: &Vec<char>, n: usize, suffix: &str) -> (found: bool)
    requires
        n <= chars@.len(),
    ensures
        found == ends_with_at(chars@, n as int, suffix@),
{
    let tail = str_chars(suffix);
    let k: usize = tail.len();
    if k > n {
        return false;
    }
    let base: usize = n - k;
    let mut i: usize = 0;
    while i < k
        invariant
            i <= k,
            k == tail@.len(),
            base + k == n,
            n <= chars@.len(),
            tail@ == suffix@,
            forall|j: int| 0 <= j < i ==> chars@[base + j] == tail@[j],
        decreases k - i,
    {
        if chars[base + i] != tail[i] {
            assert(chars@.subrange(n - k, n as int)[i as int] != suffix@[i as int]);
            return false;
        }
        i += 1;
    }
    assert(chars@.subrange(n - k, n as int) =~= suffix@);
    true
}

} // verus!
