//! Numbers as text, and text taken apart into characters.

use vstd::prelude::*;

verus! {

/// The value of one digit, where `c` is a digit of a number written in `radix` (at most 36).
pub open spec fn digit_value(c: char, radix: nat) -> Option<nat> {
    let value = if '0' <= c <= '9' {
        c as int - '0' as int
    } else if 'a' <= c <= 'z' {
        c as int - 'a' as int + 10
    } else if 'A' <= c <= 'Z' {
        c as int - 'A' as int + 10
    } else {
        radix as int
    };
    if value < radix {
        Some(value as nat)
    } else {
        None
    }
}

/// Every character of `s` is a digit in `radix`.
pub open spec fn all_digits(s: Seq<char>, radix: nat) -> bool {
    forall|i: int| 0 <= i < s.len() ==> digit_value(#[trigger] s[i], radix) is Some
}

/// The number that the digits `s` spell, most significant first.
pub open spec fn number_value(s: Seq<char>, radix: nat) -> nat
    decreases s.len(),
{
    if s.len() == 0 {
        0
    } else {
        number_value(s.drop_last(), radix) * radix + digit_value(s.last(), radix).unwrap_or(0)
    }
}

/// What is left of `s` without one leading plus sign.
pub open spec fn unsigned_part(s: Seq<char>) -> Seq<char> {
    if s.len() > 0 && s[0] == '+' {
        s.skip(1)
    } else {
        s
    }
}

/// The number written in `s`: an optional plus sign and at least one digit, no more than `max`.
pub open spec fn parsed(s: Seq<char>, radix: nat, max: nat) -> Option<nat> {
    let digits = unsigned_part(s);
    if digits.len() > 0 && all_digits(digits, radix) && number_value(digits, radix) <= max {
        Some(number_value(digits, radix))
    } else {
        None
    }
}

/// The port number that `s` spells.
pub open spec fn port_of(s: Seq<char>) -> Option<u16> {
    match parsed(s, 10, 65535) {
        Some(n) => Some(n as u16),
        None => None,
    }
}

/// The code point that `s` spells in hexadecimal.
pub open spec fn code_point_of(s: Seq<char>) -> Option<u32> {
    match parsed(s, 16, 0xffff_ffff) {
        Some(n) => Some(n as u32),
        None => None,
    }
}

/// The digit that stands for `n`, in lower case.
pub open spec fn digit_char(n: nat) -> char {
    if n < 10 {
        ('0' as int + n) as char
    } else {
        ('a' as int + n - 10) as char
    }
}

/// `n` written in `radix`, in lower case and without leading zeros.
pub open spec fn digits_of(n: nat, radix: nat) -> Seq<char>
    decreases n,
{
    if n < radix || radix < 2 {
        seq![digit_char(n)]
    } else {
        proof {
            assert(n / radix < n) by (nonlinear_arith)
                requires
                    n >= radix,
                    radix >= 2,
            ;
        }
        digits_of(n / radix, radix).push(digit_char(n % radix))
    }
}

/// A prefix of digits never spells a larger number than the whole.
pub proof fn lemma_prefix_is_no_larger(s: Seq<char>, i: int, radix: nat)
    requires
        0 <= i <= s.len(),
        radix >= 1,
    ensures
        number_value(s.take(i), radix) <= number_value(s, radix),
    decreases s.len(),
{
    if i == s.len() {
        assert(s.take(i) =~= s);
    } else {
        lemma_prefix_is_no_larger(s.drop_last(), i, radix);
        assert(s.drop_last().take(i) =~= s.take(i));
        let head = number_value(s.drop_last(), radix);
        assert(head <= head * radix) by (nonlinear_arith)
            requires
                radix >= 1,
        ;
    }
}

/// The characters of `s`, one by one.
pub fn chars_of(s: &str) -> (chars: Vec<char>)
    ensures
        chars@ == s@,
{
    let mut chars: Vec<char> = Vec::new();
    for c in iter: s.chars()
        invariant
            chars@ == iter.seq().take(iter.index()),
            iter.seq() == s@,
    {
        chars.push(c);
    }
    chars
}

/// The value of the digit `c`, where it is one.
pub fn digit_of(c: char, radix: u32) -> (digit: Option<u32>)
    requires
        2 <= radix <= 36,
    ensures
        digit is Some <==> digit_value(c, radix as nat) is Some,
        digit matches Some(d) ==> digit_value(c, radix as nat) == Some(d as nat) && d < radix,
{
    let value: u32 = if '0' <= c && c <= '9' {
        c as u32 - '0' as u32
    } else if 'a' <= c && c <= 'z' {
        c as u32 - 'a' as u32 + 10
    } else if 'A' <= c && c <= 'Z' {
        c as u32 - 'A' as u32 + 10
    } else {
        radix
    };
    if value < radix {
        Some(value)
    } else {
        None
    }
}

/// Reads an unsigned number in `radix` that is no larger than `max`.
pub fn parse_unsigned(s: &str, radix: u32, max: u32) -> (number: Option<u32>)
    requires
        2 <= radix <= 36,
    ensures
        number is Some <==> parsed(s@, radix as nat, max as nat) is Some,
        number matches Some(n) ==> parsed(s@, radix as nat, max as nat) == Some(n as nat),
{
    let chars = chars_of(s);
    let start: usize = if chars.len() > 0 && chars[0] == '+' {
        1
    } else {
        0
    };
    let ghost digits = unsigned_part(s@);
    assert(digits =~= s@.skip(start as int));
    if start == chars.len() {
        return None;
    }
    let mut value: u32 = 0;
    let mut i: usize = start;
    while i < chars.len()
        invariant
            2 <= radix <= 36,
            chars@ == s@,
            start <= i <= chars.len(),
            start <= 1,
            digits == unsigned_part(s@),
            digits == s@.skip(start as int),
            all_digits(digits.take(i - start), radix as nat),
            value == number_value(digits.take(i - start), radix as nat),
            value <= max,
        decreases chars.len() - i,
    {
        let ghost k = i - start;
        assert(digits[k] == chars[i as int]);
        assert(digits.take(k + 1).drop_last() =~= digits.take(k));
        assert(digits.take(k + 1).last() == digits[k]);
        match digit_of(chars[i], radix) {
            None => {
                assert(digit_value(digits[k], radix as nat) is None);
                return None;
            },
            Some(d) => {
                assert(value as u64 * radix as u64 + d as u64 <= 0xffff_ffff * 36 + 36)
                    by (nonlinear_arith)
                    requires
                        value <= 0xffff_ffff,
                        2 <= radix <= 36,
                        d < 36,
                ;
                assert(value as u64 * radix as u64 >= 0) by (nonlinear_arith);
                let next: u64 = value as u64 * radix as u64 + d as u64;
                assert(next == number_value(digits.take(k + 1), radix as nat));
                if next > max as u64 {
                    proof {
                        lemma_prefix_is_no_larger(digits, k + 1, radix as nat);
                    }
                    return None;
                }
                value = next as u32;
                assert forall|j: int| 0 <= j < k + 1 implies digit_value(
                    #[trigger] digits.take(k + 1)[j],
                    radix as nat,
                ) is Some by {
                    if j < k {
                        assert(digits.take(k + 1)[j] == digits.take(k)[j]);
                    }
                }
            },
        }
        i += 1;
    }
    assert(digits.take(i - start) =~= digits);
    Some(value)
}

/// Reads a port number.
pub fn parse_port(s: &str) -> (port: Option<u16>)
    ensures
        port == port_of(s@),
{
    match parse_unsigned(s, 10, 65535) {
        Some(n) => Some(n as u16),
        None => None,
    }
}

/// Reads a code point in hexadecimal.
pub fn parse_code_point(s: &str) -> (code: Option<u32>)
    ensures
        code == code_point_of(s@),
{
    parse_unsigned(s, 16, 0xffff_ffff)
}

/// The digit for `n` as a text of one character.
fn digit_text(n: u32) -> (text: &'static str)
    requires
        n < 16,
    ensures
        text@ == seq![digit_char(n as nat)],
{
    proof {
        reveal_strlit("0");
        reveal_strlit("1");
        reveal_strlit("2");
        reveal_strlit("3");
        reveal_strlit("4");
        reveal_strlit("5");
        reveal_strlit("6");
        reveal_strlit("7");
        reveal_strlit("8");
        reveal_strlit("9");
        reveal_strlit("a");
        reveal_strlit("b");
        reveal_strlit("c");
        reveal_strlit("d");
        reveal_strlit("e");
        reveal_strlit("f");
    }
    match n {
        0 => "0",
        1 => "1",
        2 => "2",
        3 => "3",
        4 => "4",
        5 => "5",
        6 => "6",
        7 => "7",
        8 => "8",
        9 => "9",
        10 => "a",
        11 => "b",
        12 => "c",
        13 => "d",
        14 => "e",
        _ => "f",
    }
}

/// Writes `n` in `radix`, in lower case and without leading zeros.
pub fn to_digits(n: u32, radix: u32) -> (text: String)
    requires
        2 <= radix <= 16,
    ensures
        text@ == digits_of(n as nat, radix as nat),
    decreases n,
{
    if n < radix {
        digit_text(n).to_owned()
    } else {
        assert(n / radix < n) by (nonlinear_arith)
            requires
                n >= radix,
                radix >= 2,
        ;
        let mut text = to_digits(n / radix, radix);
        text.append(digit_text(n % radix));
        text
    }
}

/// The digits of `n` spell `n`.
pub proof fn lemma_digits_spell_their_number(n: nat, radix: nat)
    requires
        2 <= radix <= 16,
    ensures
        digits_of(n, radix).len() > 0,
        all_digits(digits_of(n, radix), radix),
        number_value(digits_of(n, radix), radix) == n,
        unsigned_part(digits_of(n, radix)) == digits_of(n, radix),
    decreases n,
{
    let s = digits_of(n, radix);
    if n < radix {
        assert(s.drop_last() =~= Seq::<char>::empty());
        assert(digit_value(digit_char(n), radix) == Some(n));
        assert(number_value(s.drop_last(), radix) * radix == 0) by (nonlinear_arith)
            requires
                number_value(s.drop_last(), radix) == 0,
        ;
    } else {
        assert(n / radix < n) by (nonlinear_arith)
            requires
                n >= radix,
                radix >= 2,
        ;
        let head = digits_of(n / radix, radix);
        lemma_digits_spell_their_number(n / radix, radix);
        vstd::arithmetic::div_mod::lemma_fundamental_div_mod(n as int, radix as int);
        assert((n / radix) * radix == radix * (n / radix)) by (nonlinear_arith);
        assert(s.drop_last() =~= head);
        assert(digit_value(digit_char(n % radix), radix) == Some(n % radix));
        assert(s[0] == head[0]);
        assert forall|i: int| 0 <= i < s.len() implies digit_value(
            #[trigger] s[i],
            radix,
        ) is Some by {
            if i < head.len() {
                assert(s[i] == head[i]);
            }
        }
    }
}

/// Writing a code point in hexadecimal and reading it back gives the same code point.
pub proof fn law_code_point_round_trip(code: u32)
    ensures
        code_point_of(digits_of(code as nat, 16)) == Some(code),
{
    lemma_digits_spell_their_number(code as nat, 16);
}

/// Writing a port in decimal and reading it back gives the same port.
pub proof fn law_port_round_trip(port: u16)
    ensures
        port_of(digits_of(port as nat, 10)) == Some(port),
{
    lemma_digits_spell_their_number(port as nat, 10);
}

/// The place of the first `c` in `s`, or the length of `s`.
pub open spec fn place_of(s: Seq<char>, c: char) -> int
    decreases s.len(),
{
    if s.len() == 0 || s[0] == c {
        0
    } else {
        1 + place_of(s.drop_first(), c)
    }
}

/// The part of `s` before its first `#`.
pub open spec fn before_mark(s: Seq<char>) -> Seq<char> {
    s.take(place_of(s, '#'))
}

/// The part of `s` after its first `#`; empty where there is none.
pub open spec fn after_mark(s: Seq<char>) -> Seq<char> {
    if place_of(s, '#') < s.len() {
        s.skip(place_of(s, '#') + 1)
    } else {
        Seq::empty()
    }
}

/// `place_of` points at the first `c`: none stands before it.
pub proof fn lemma_place_of(s: Seq<char>, c: char)
    ensures
        0 <= place_of(s, c) <= s.len(),
        place_of(s, c) < s.len() ==> s[place_of(s, c)] == c,
        forall|i: int| 0 <= i < place_of(s, c) ==> #[trigger] s[i] != c,
    decreases s.len(),
{
    if s.len() > 0 && s[0] != c {
        lemma_place_of(s.drop_first(), c);
        assert forall|i: int| 0 <= i < place_of(s, c) implies #[trigger] s[i] != c by {
            if i > 0 {
                assert(s[i] == s.drop_first()[i - 1]);
            }
        }
    }
}

/// The first `c` among the characters from `from` up to `to`, or `to` where there is none.
pub fn find_char(chars: &Vec<char>, from: usize, to: usize, c: char) -> (place: usize)
    requires
        from <= to <= chars.len(),
    ensures
        from <= place <= to,
        place - from == place_of(chars@.subrange(from as int, to as int), c),
{
    let ghost part = chars@.subrange(from as int, to as int);
    let mut i: usize = from;
    proof {
        lemma_place_of(part, c);
    }
    while i < to
        invariant
            from <= i <= to <= chars.len(),
            part == chars@.subrange(from as int, to as int),
            i - from <= place_of(part, c) <= part.len(),
            place_of(part, c) < part.len() ==> part[place_of(part, c)] == c,
            forall|j: int| 0 <= j < place_of(part, c) ==> #[trigger] part[j] != c,
        decreases to - i,
    {
        assert(part[i - from] == chars[i as int]);
        if chars[i] == c {
            return i;
        }
        i += 1;
    }
    i
}

/// Splits the name of an argument at its marks into the label and the hint that follows it.
pub fn split_label(s: &str) -> (parts: (String, String))
    ensures
        parts.0@ == before_mark(s@),
        parts.1@ == before_mark(after_mark(s@)),
{
    let chars = chars_of(s);
    let len: usize = chars.len();
    let first: usize = find_char(&chars, 0, len, '#');
    assert(s@.subrange(0, len as int) =~= s@);
    let label = s.substring_char(0, first).to_owned();
    assert(s@.subrange(0, first as int) =~= s@.take(first as int));
    if first == len {
        assert(Seq::<char>::empty().take(0) =~= Seq::<char>::empty());
        return (label, String::new());
    }
    let second: usize = find_char(&chars, first + 1, len, '#');
    let hint = s.substring_char(first + 1, second).to_owned();
    assert(s@.subrange(first + 1, len as int) =~= s@.skip(first + 1));
    assert(s@.subrange(first + 1, second as int) =~= s@.skip(first + 1).take(second - (first + 1)));
    (label, hint)
}

/// Digits further right spell no larger number than the whole run they end.
pub proof fn lemma_suffix_is_no_larger(s: Seq<char>, from: int, inner: int, to: int, radix: nat)
    requires
        0 <= from <= inner <= to <= s.len(),
    ensures
        number_value(s.subrange(inner, to), radix) <= number_value(s.subrange(from, to), radix),
    decreases to - inner,
{
    if inner < to {
        let long = s.subrange(from, to);
        let short = s.subrange(inner, to);
        assert(long.drop_last() =~= s.subrange(from, to - 1));
        assert(short.drop_last() =~= s.subrange(inner, to - 1));
        assert(long.last() == short.last());
        lemma_suffix_is_no_larger(s, from, inner, to - 1, radix);
        let a = number_value(short.drop_last(), radix);
        let b = number_value(long.drop_last(), radix);
        assert(a * radix <= b * radix) by (nonlinear_arith)
            requires
                a <= b,
        ;
    }
}

/// A text spells a port exactly where it is made of decimal digits, with or without one plus sign
/// before them, and the number is no larger than 65535; that number is the port.
pub proof fn law_a_port_is_a_small_decimal_number(digits: Seq<char>)
    ensures
        port_of(seq!['+'] + digits) is Some <==> {
            &&& digits.len() > 0
            &&& forall|i: int| 0 <= i < digits.len() ==> ('0' <= #[trigger] digits[i] <= '9')
            &&& number_value(digits, 10) <= 65535
        },
        port_of(seq!['+'] + digits) matches Some(port) ==> port == number_value(digits, 10),
        digits.len() == 0 || digits[0] != '+' ==> port_of(digits) == port_of(seq!['+'] + digits),
{
    let s = seq!['+'] + digits;
    assert(s.skip(1) =~= digits);
    assert(unsigned_part(s) == digits);
    if all_digits(digits, 10) {
        assert forall|i: int| 0 <= i < digits.len() implies ('0' <= #[trigger] digits[i] <= '9') by {
            assert(digit_value(digits[i], 10) is Some);
        }
    }
    if forall|i: int| 0 <= i < digits.len() ==> ('0' <= #[trigger] digits[i] <= '9') {
        assert forall|i: int| 0 <= i < digits.len() implies digit_value(
            #[trigger] digits[i],
            10,
        ) is Some by {}
        assert(all_digits(digits, 10));
    }
}

/// A text spells a code point exactly where it is made of hexadecimal digits of either case, with
/// or without one plus sign before them, and the number fits into 32 bits; that number is the code
/// point.
pub proof fn law_a_code_point_is_a_hexadecimal_number(digits: Seq<char>)
    ensures
        code_point_of(seq!['+'] + digits) is Some <==> {
            &&& digits.len() > 0
            &&& forall|i: int| 0 <= i < digits.len() ==> ('0' <= #[trigger] digits[i] <= '9' || 'a'
                <= digits[i] <= 'f' || 'A' <= digits[i] <= 'F')
            &&& number_value(digits, 16) <= 0xffff_ffff
        },
        code_point_of(seq!['+'] + digits) matches Some(code) ==> code == number_value(digits, 16),
        digits.len() == 0 || digits[0] != '+' ==> code_point_of(digits) == code_point_of(seq!['+'] + digits),
{
    let s = seq!['+'] + digits;
    assert(s.skip(1) =~= digits);
    assert(unsigned_part(s) == digits);
    if all_digits(digits, 16) {
        assert forall|i: int| 0 <= i < digits.len() implies ('0' <= #[trigger] digits[i] <= '9' || 'a'
                <= digits[i] <= 'f' || 'A' <= digits[i] <= 'F') by {
            assert(digit_value(digits[i], 16) is Some);
        }
    }
    if forall|i: int| 0 <= i < digits.len() ==> ('0' <= #[trigger] digits[i] <= '9' || 'a'
                <= digits[i] <= 'f' || 'A' <= digits[i] <= 'F') {
        assert forall|i: int| 0 <= i < digits.len() implies digit_value(
            #[trigger] digits[i],
            16,
        ) is Some by {}
        assert(all_digits(digits, 16));
    }
}

/// One more digit at the end multiplies what was spelled by the radix and adds the digit.
pub proof fn law_one_more_digit(s: Seq<char>, c: char)
    ensures
        number_value(Seq::<char>::empty(), 10) == 0,
        number_value(Seq::<char>::empty(), 16) == 0,
        '0' <= c <= '9' ==> number_value(s.push(c), 10) == number_value(s, 10) * 10 + (c as int
            - '0' as int),
        '0' <= c <= '9' ==> number_value(s.push(c), 16) == number_value(s, 16) * 16 + (c as int
            - '0' as int),
        'a' <= c <= 'f' ==> number_value(s.push(c), 16) == number_value(s, 16) * 16 + (c as int
            - 'a' as int + 10),
        'A' <= c <= 'F' ==> number_value(s.push(c), 16) == number_value(s, 16) * 16 + (c as int
            - 'A' as int + 10),
{
    assert(s.push(c).drop_last() =~= s);
}

/// A number is written by its digits, the most significant first, in lower case and without zeros
/// before them.
pub proof fn law_numbers_are_written_digit_by_digit(n: nat, digit: nat)
    ensures
        digit < 10 ==> digits_of(digit, 10) == seq![('0' as int + digit) as char],
        digit < 10 ==> digits_of(digit, 16) == seq![('0' as int + digit) as char],
        10 <= digit < 16 ==> digits_of(digit, 16) == seq![('a' as int + digit - 10) as char],
        n > 0 && digit < 10 ==> digits_of(n * 10 + digit, 10) == digits_of(n, 10).push(
            ('0' as int + digit) as char,
        ),
        n > 0 && digit < 10 ==> digits_of(n * 16 + digit, 16) == digits_of(n, 16).push(
            ('0' as int + digit) as char,
        ),
        n > 0 && 10 <= digit < 16 ==> digits_of(n * 16 + digit, 16) == digits_of(n, 16).push(
            ('a' as int + digit - 10) as char,
        ),
{
    if digit < 10 {
        assert((n * 10 + digit) / 10 == n && (n * 10 + digit) % 10 == digit);
    }
    if digit < 16 {
        assert((n * 16 + digit) / 16 == n && (n * 16 + digit) % 16 == digit);
    }
}

/// A name is parted at its first mark: what stands before it holds none, and what stands after it
/// is the rest. A name without a mark is all before it.
pub proof fn law_a_name_is_parted_at_its_first_mark(before: Seq<char>, after: Seq<char>)
    requires
        forall|i: int| 0 <= i < before.len() ==> #[trigger] before[i] != '#',
    ensures
        before_mark(before) == before,
        after_mark(before).len() == 0,
        before_mark(before + seq!['#'] + after) == before,
        after_mark(before + seq!['#'] + after) == after,
{
    let s = before + seq!['#'] + after;
    lemma_place_of(before, '#');
    lemma_place_of(s, '#');
    if place_of(before, '#') < before.len() {
        assert(before[place_of(before, '#')] == '#');
    }
    if place_of(s, '#') < before.len() {
        assert(s[place_of(s, '#')] == before[place_of(s, '#')]);
    }
    if place_of(s, '#') > before.len() {
        assert(s[before.len() as int] == '#');
    }
    assert(before_mark(before) =~= before);
    assert(before_mark(s) =~= before);
    assert(after_mark(s) =~= after);
}

} // verus!
