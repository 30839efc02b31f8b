//! Reading an offset from its text: a decimal numeral, or a hexadecimal one
//! behind the mark `0x`.

use vstd::prelude::*;
use crate::hex::{hex_digit, hex_numeral, lemma_numeral_min_len};
use crate::text::chars_of;

verus! {

/// Whether `c` is white space: a character with the Unicode property
/// `White_Space`.
pub open spec fn is_space(c: char) -> bool {
    let n = c as u32;
    ||| 0x09 <= n <= 0x0d
    ||| n == 0x20
    ||| n == 0x85
    ||| n == 0xa0
    ||| n == 0x1680
    ||| 0x2000 <= n <= 0x200a
    ||| n == 0x2028
    ||| n == 0x2029
    ||| n == 0x202f
    ||| n == 0x205f
    ||| n == 0x3000
}

/// The first index at or after `from` that holds no white space; the length
/// of `s` if there is none.
pub open spec fn skip_spaces(s: Seq<char>, from: int) -> int
    decreases s.len() - from,
{
    if 0 <= from < s.len() && is_space(s[from]) {
        skip_spaces(s, from + 1)
    } else {
        from
    }
}

/// The least index `to` above `from` such that only white space lies from it
/// up to `to`; `from` if all of it is white space.
pub open spec fn drop_spaces(s: Seq<char>, from: int, to: int) -> int
    decreases to - from,
{
    if from < to <= s.len() && is_space(s[to - 1]) {
        drop_spaces(s, from, to - 1)
    } else {
        to
    }
}

/// `s` without the white space at its two ends.
pub open spec fn trimmed(s: Seq<char>) -> Seq<char> {
    let from = skip_spaces(s, 0);
    s.subrange(from, drop_spaces(s, from, s.len() as int))
}

/// Whether `s` begins with the hexadecimal mark `0x`.
pub open spec fn hex_marked(s: Seq<char>) -> bool {
    s.len() >= 2 && s[0] == '0' && s[1] == 'x'
}

/// The value of `c` as a digit of the given radix, where it is one. Letters
/// count from ten up, in either case.
pub open spec fn digit_of(c: char, radix: nat) -> Option<nat> {
    let n = c as u32;
    let value: nat = if 48 <= n <= 57 {
        (n - 48) as nat
    } else if 97 <= n <= 122 {
        (n - 87) as nat
    } else if 65 <= n <= 90 {
        (n - 55) as nat
    } else {
        radix
    };
    if value < radix {
        Some(value)
    } else {
        None
    }
}

/// Whether every character of `s` is a digit of the given radix.
pub open spec fn all_digits(s: Seq<char>, radix: nat) -> bool {
    forall|i: int| 0 <= i < s.len() ==> digit_of(#[trigger] s[i], radix).is_some()
}

/// The number that the digits `s` spell in the given radix, most significant
/// digit first; `None` if a character of `s` is no digit. The empty sequence
/// spells zero.
pub open spec fn digits_value(s: Seq<char>, radix: nat) -> Option<nat>
    decreases s.len(),
{
    if s.len() == 0 {
        Some(0)
    } else {
        match (digits_value(s.drop_last(), radix), digit_of(s.last(), radix)) {
            (Some(high), Some(low)) => Some(high * radix + low),
            _ => None,
        }
    }
}

/// The number that the numeral `s` spells: at least one digit, and nothing
/// but digits. No sign, no white space, no separator.
pub open spec fn numeral_value(s: Seq<char>, radix: nat) -> Option<nat> {
    if s.len() == 0 {
        None
    } else {
        digits_value(s, radix)
    }
}

/// The number that the text `s` stands for, if it stands for one.
///
/// Text that begins with `0x` once the white space at its ends is set aside
/// is hexadecimal: it must be the mark `0x`, once, and then a numeral of
/// radix 16, with no white space around it. Any other text must be, without
/// the white space at its ends, a numeral of radix 10.
pub open spec fn number_of(s: Seq<char>) -> Option<nat> {
    if hex_marked(trimmed(s)) {
        if hex_marked(s) {
            numeral_value(s.skip(2), 16)
        } else {
            None
        }
    } else {
        numeral_value(trimmed(s), 10)
    }
}

/// The number that `parse_number` gives for `s`: the one `s` stands for, if it
/// fits the machine word.
pub open spec fn parsed(s: Seq<char>) -> Option<usize> {
    match number_of(s) {
        Some(value) => if value <= usize::MAX {
            Some(value as usize)
        } else {
            None
        },
        None => None,
    }
}

/// The number that `atoi` gives for `s`: the one `s` stands for where it fits
/// the machine word, else `usize::MAX`.
pub open spec fn atoi_value(s: Seq<char>) -> usize {
    match parsed(s) {
        Some(number) => number,
        None => usize::MAX,
    }
}

/// Whether `s` is a hexadecimal numeral: the mark `0x` and then one or more
/// hex digits, nothing else.
pub open spec fn is_hex_numeral(s: Seq<char>) -> bool {
    hex_marked(s) && s.len() > 2 && all_digits(s.skip(2), 16)
}

/// Whether `s` is a decimal numeral: one or more decimal digits, nothing
/// else.
pub open spec fn is_decimal_numeral(s: Seq<char>) -> bool {
    s.len() > 0 && all_digits(s, 10)
}

/// Digits spell a number exactly when each of them is a digit.
pub proof fn lemma_digits_spell(s: Seq<char>, radix: nat)
    ensures
        digits_value(s, radix).is_some() <==> all_digits(s, radix),
    decreases s.len(),
{
    if s.len() > 0 {
        let front = s.drop_last();
        lemma_digits_spell(front, radix);
        if all_digits(s, radix) {
            assert forall|i: int| 0 <= i < front.len() implies digit_of(
                #[trigger] front[i],
                radix,
            ).is_some() by {
                assert(front[i] == s[i]);
            }
            assert(digit_of(s[s.len() - 1], radix).is_some());
        }
        if digits_value(s, radix).is_some() {
            assert forall|i: int| 0 <= i < s.len() implies digit_of(
                #[trigger] s[i],
                radix,
            ).is_some() by {
                if i < front.len() {
                    assert(front[i] == s[i]);
                }
            }
        }
    }
}

/// Trimming stops at a character that is no white space.
proof fn lemma_drop_spaces_stops(s: Seq<char>, from: int, to: int, keep: int)
    requires
        0 <= from < keep <= to <= s.len(),
        !is_space(s[keep - 1]),
    ensures
        keep <= drop_spaces(s, from, to) <= to,
    decreases to - from,
{
    if is_space(s[to - 1]) {
        lemma_drop_spaces_stops(s, from, to - 1, keep);
    }
}

/// Text that begins with the mark still does once it is trimmed.
proof fn lemma_mark_survives_trim(s: Seq<char>)
    requires
        hex_marked(s),
    ensures
        hex_marked(trimmed(s)),
{
    assert(!is_space('0') && !is_space('x'));
    assert(skip_spaces(s, 0) == 0);
    lemma_drop_spaces_stops(s, 0, s.len() as int, 2);
}

/// A text stands for a number exactly when it is a hexadecimal numeral as it
/// is, or a decimal numeral once the white space at its ends is set aside.
/// Then the number is the one its digits spell.
pub proof fn lemma_number_is_numeral(s: Seq<char>)
    ensures
        number_of(s).is_some() <==> is_hex_numeral(s) || is_decimal_numeral(trimmed(s)),
        is_hex_numeral(s) ==> number_of(s) == digits_value(s.skip(2), 16),
        is_decimal_numeral(trimmed(s)) ==> number_of(s) == digits_value(trimmed(s), 10),
{
    let inner = trimmed(s);
    lemma_digits_spell(s.skip(2), 16);
    lemma_digits_spell(inner, 10);
    if hex_marked(s) {
        lemma_mark_survives_trim(s);
    }
    if hex_marked(inner) {
        assert(digit_of(inner[1], 10).is_none());
    }
}

/// What `atoi` gives is a usable offset only for a numeral: a result other
/// than `usize::MAX` is the number that the digits of a hexadecimal or of a
/// trimmed decimal numeral spell, and text that is neither gives `usize::MAX`.
pub proof fn lemma_atoi_is_numeral(s: Seq<char>)
    ensures
        !is_hex_numeral(s) && !is_decimal_numeral(trimmed(s)) ==> atoi_value(s) == usize::MAX
            && parsed(s).is_none(),
        atoi_value(s) != usize::MAX ==> is_hex_numeral(s) || is_decimal_numeral(trimmed(s)),
        atoi_value(s) != usize::MAX && is_hex_numeral(s) ==> digits_value(s.skip(2), 16) == Some(
            atoi_value(s) as nat,
        ),
        atoi_value(s) != usize::MAX && is_decimal_numeral(trimmed(s)) ==> digits_value(
            trimmed(s),
            10,
        ) == Some(atoi_value(s) as nat),
{
    lemma_number_is_numeral(s);
}

/// A hex digit reads back as its value, and so does its capital.
pub proof fn lemma_digit_reads_back(d: nat)
    requires
        d < 16,
    ensures
        digit_of(hex_digit(d), 16) == Some(d),
        d >= 10 ==> digit_of((55 + d) as char, 16) == Some(d),
        d < 10 ==> digit_of(hex_digit(d), 10) == Some(d),
{
}

/// The decimal numeral of `n`: its digits, most significant first, without
/// leading zeros.
pub open spec fn decimal_numeral(n: nat) -> Seq<char>
    decreases n,
{
    if n < 10 {
        seq![hex_digit(n)]
    } else {
        decimal_numeral(n / 10).push(hex_digit(n % 10))
    }
}

/// Text that neither begins nor ends with white space is its own trimming.
proof fn lemma_trim_keeps(s: Seq<char>)
    requires
        s.len() > 0,
        !is_space(s[0]),
        !is_space(s.last()),
    ensures
        trimmed(s) == s,
{
    assert(skip_spaces(s, 0) == 0);
    assert(drop_spaces(s, 0, s.len() as int) == s.len());
    assert(s.subrange(0, s.len() as int) =~= s);
}

/// The digits of a decimal numeral are decimal digits and spell its number.
proof fn lemma_decimal_spells(n: nat)
    ensures
        decimal_numeral(n).len() >= 1,
        all_digits(decimal_numeral(n), 10),
        digits_value(decimal_numeral(n), 10) == Some(n),
    decreases n,
{
    let numeral = decimal_numeral(n);
    lemma_digit_reads_back(n % 10);
    if n < 10 {
        assert(numeral.drop_last() =~= Seq::<char>::empty());
        assert(digits_value(numeral.drop_last(), 10) == Some(0nat));
        assert(numeral.last() == hex_digit(n));
    } else {
        lemma_decimal_spells(n / 10);
        assert(numeral.drop_last() =~= decimal_numeral(n / 10));
        assert(numeral.last() == hex_digit(n % 10));
    }
    lemma_digits_spell(numeral, 10);
}

/// Reading gives back what was written, in decimal too: the decimal numeral
/// of a number stands for that number.
pub proof fn lemma_decimal_reads_back(n: nat)
    ensures
        number_of(decimal_numeral(n)) == Some(n),
{
    let numeral = decimal_numeral(n);
    lemma_decimal_spells(n);
    assert(digit_of(numeral[0], 10).is_some());
    assert(digit_of(numeral.last(), 10).is_some());
    lemma_trim_keeps(numeral);
    if hex_marked(numeral) {
        assert(digit_of(numeral[1], 10).is_none());
    }
}

/// The digits of a hex numeral spell the number it was written for.
pub proof fn lemma_numeral_spells(n: nat, width: nat)
    ensures
        digits_value(hex_numeral(n, width), 16) == Some(n),
    decreases n, width,
{
    let numeral = hex_numeral(n, width);
    lemma_digit_reads_back(n % 16);
    if n < 16 && width <= 1 {
        assert(numeral.drop_last() =~= Seq::<char>::empty());
        assert(digits_value(numeral.drop_last(), 16) == Some(0nat));
        assert(numeral.last() == hex_digit(n));
    } else {
        let rest: nat = if width > 0 { (width - 1) as nat } else { 0 };
        lemma_numeral_spells(n / 16, rest);
        assert(numeral.drop_last() =~= hex_numeral(n / 16, rest));
        assert(numeral.last() == hex_digit(n % 16));
    }
}

/// Reading gives back what was written: the mark `0x` and the hex numeral of
/// a number, at whatever width, stand for that number.
pub proof fn lemma_numeral_reads_back(n: nat, width: nat)
    ensures
        number_of("0x"@ + hex_numeral(n, width)) == Some(n),
{
    let numeral = hex_numeral(n, width);
    let text = "0x"@ + numeral;
    reveal_strlit("0x");
    lemma_numeral_min_len(n, width);
    lemma_numeral_spells(n, width);
    assert(hex_marked(text));
    lemma_mark_survives_trim(text);
    assert(text.skip(2) =~= numeral);
}

fn space(c: char) -> (yes: bool)
    ensures
        yes == is_space(c),
{
    let n: u32 = c as u32;
    (0x09 <= n && n <= 0x0d) || n == 0x20 || n == 0x85 || n == 0xa0 || n == 0x1680 || (0x2000 <= n
        && n <= 0x200a) || n == 0x2028 || n == 0x2029 || n == 0x202f || n == 0x205f || n == 0x3000
}

fn digit(c: char, radix: usize) -> (value: Option<usize>)
    requires
        radix <= 36,
    ensures
        value.is_some() == digit_of(c, radix as nat).is_some(),
        value.is_some() ==> value.unwrap() == digit_of(c, radix as nat).unwrap() && value.unwrap()
            < radix,
{
    let n: u32 = c as u32;
    let raw: usize = if 48 <= n && n <= 57 {
        (n - 48) as usize
    } else if 97 <= n && n <= 122 {
        (n - 87) as usize
    } else if 65 <= n && n <= 90 {
        (n - 55) as usize
    } else {
        radix
    };
    if raw < radix {
        Some(raw)
    } else {
        None
    }
}

/// The digits of a prefix spell a number no larger than the digits of the
/// whole, and if the whole spells a number then so does each prefix.
proof fn lemma_prefix_value(s: Seq<char>, radix: nat, len: int)
    requires
        0 <= len <= s.len(),
        radix >= 1,
        digits_value(s, radix).is_some(),
    ensures
        digits_value(s.take(len), radix).is_some(),
        digits_value(s.take(len), radix).unwrap() <= digits_value(s, radix).unwrap(),
    decreases s.len(),
{
    if len == s.len() {
        assert(s.take(len) =~= s);
    } else {
        let front = s.drop_last();
        lemma_prefix_value(front, radix, len);
        assert(front.take(len) =~= s.take(len));
        let high = digits_value(front, radix).unwrap();
        assert(high * radix >= high) by (nonlinear_arith)
            requires
                radix >= 1,
                high >= 0,
        ;
    }
}

/// Reads `chars[from..to]` as a numeral of the given radix.
fn read_numeral(chars: &Vec<char>, from: usize, to: usize, radix: usize) -> (value: Option<usize>)
    requires
        from <= to <= chars@.len(),
        2 <= radix <= 36,
    ensures
        value == match numeral_value(chars@.subrange(from as int, to as int), radix as nat) {
            Some(v) => if v <= usize::MAX {
                Some(v as usize)
            } else {
                None
            },
            None => None,
        },
{
    let ghost digits = chars@.subrange(from as int, to as int);
    if from == to {
        return None;
    }
    let mut total: usize = 0;
    let mut at: usize = from;
    while at < to
        invariant
            from <= at <= to <= chars@.len(),
            from < to,
            2 <= radix <= 36,
            digits == chars@.subrange(from as int, to as int),
            digits_value(digits.take(at - from), radix as nat) == Some(total as nat),
        decreases to - at,
    {
        let ghost front = digits.take(at - from);
        let ghost next = digits.take(at + 1 - from);
        assert(next.drop_last() =~= front);
        assert(next.last() == chars@[at as int]);
        match digit(chars[at], radix) {
            None => {
                proof {
                    if digits_value(digits, radix as nat).is_some() {
                        lemma_prefix_value(digits, radix as nat, at + 1 - from);
                    }
                }
                return None;
            },
            Some(low) => {
                if total > (usize::MAX - low) / radix {
                    proof {
                        assert(total * radix + low > usize::MAX) by (nonlinear_arith)
                            requires
                                total > (usize::MAX - low) / (radix as int),
                                radix >= 2,
                                low <= usize::MAX,
                        ;
                        if digits_value(digits, radix as nat).is_some() {
                            lemma_prefix_value(digits, radix as nat, at + 1 - from);
                        }
                    }
                    return None;
                }
                assert(total * radix + low <= usize::MAX) by (nonlinear_arith)
                    requires
                        total <= (usize::MAX - low) / (radix as int),
                        radix >= 2,
                        low <= usize::MAX,
                        total >= 0,
                ;
                total = total * radix + low;
            },
        }
        at += 1;
    }
    assert(digits.take(to - from) =~= digits);
    Some(total)
}

/// Reads a number from its text: `Some` with the number where the text stands
/// for one that fits the machine word, else `None`.
///
/// A number is written as decimal digits, which may have white space around
/// them, or as `0x` and hex digits in either case, with nothing around them.
pub fn parse_number(num: &str) -> (value: Option<usize>)
    ensures
        value == parsed(num@),
{
    let chars = chars_of(num);
    let len = chars.len();
    let mut from: usize = 0;
    while from < len && space(chars[from])
        invariant
            from <= len == chars@.len(),
            skip_spaces(chars@, 0) == skip_spaces(chars@, from as int),
            from > 0 ==> is_space(chars@[0]),
        decreases len - from,
    {
        from += 1;
    }
    let mut to: usize = len;
    while from < to && space(chars[to - 1])
        invariant
            from <= to <= len == chars@.len(),
            drop_spaces(chars@, from as int, len as int) == drop_spaces(
                chars@,
                from as int,
                to as int,
            ),
        decreases to - from,
    {
        to -= 1;
    }
    assert(trimmed(chars@) == chars@.subrange(from as int, to as int));
    if to - from >= 2 && chars[from] == '0' && chars[from + 1] == 'x' {
        if from == 0 {
            assert(chars@.skip(2) =~= chars@.subrange(2, len as int));
            read_numeral(&chars, 2, len, 16)
        } else {
            assert(!is_space('0'));
            None
        }
    } else {
        read_numeral(&chars, from, to, 10)
    }
}

/// Reads a number from its text, with `usize::MAX` standing for "no number":
/// the number where `parse_number` finds one, else `usize::MAX`. The numeral
/// of `usize::MAX` itself gives the same result as text that is no numeral;
/// `parse_number` tells the two apart.
pub fn atoi(num: &str) -> (value: usize)
    ensures
        value == atoi_value(num@),
{
    match parse_number(num) {
        Some(number) => number,
        None => usize::MAX,
    }
}

} // verus!
