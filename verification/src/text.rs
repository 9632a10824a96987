//! Text helpers: splitting, trimming, reading and writing numbers.
//!
//! Everything here is stated over sequences of characters, so that the
//! messages and parsers built on it can be stated exactly.
use vstd::prelude::*;

verus! {

/// `String::push` of the standard library appends one character.
pub assume_specification[ String::push ](s: &mut String, c: char)
    ensures
        final(s)@ == old(s)@.push(c),
;

/// The text that bytes stand for, with what is not UTF-8 in them replaced.
pub uninterp spec fn lossy_utf8(bytes: Seq<u8>) -> Seq<char>;

/// `String::from_utf8_lossy` of the standard library: the text that the bytes
/// encode where they are UTF-8. How it replaces what is not UTF-8 is left to
/// the name.
#[verifier::external_body]
pub(crate) fn utf8_lossy(bytes: &[u8]) -> (text: String)
    ensures
        text@ == lossy_utf8(bytes@),
        vstd::utf8::valid_utf8(bytes@) ==> text@ == vstd::utf8::decode_utf8(bytes@),
{
    String::from_utf8_lossy(bytes).into_owned()
}

// ---------------------------------------------------------------------------
// conversions
// ---------------------------------------------------------------------------

/// The characters of a string.
pub fn chars_of(text: &str) -> (chars: Vec<char>)
    ensures
        chars@ == text@,
{
    let mut chars: Vec<char> = Vec::new();
    for c in it: text.chars()
        invariant
            it.seq() == text@,
            chars@ == text@.take(it.index() as int),
    {
        proof {
            assert(text@.take(it.index() as int + 1) =~= text@.take(it.index() as int).push(
                text@[it.index() as int],
            ));
        }
        chars.push(c);
    }
    proof {
        assert(text@.take(text@.len() as int) =~= text@);
    }
    chars
}

/// The string made of a run of characters.
pub fn string_of(chars: &Vec<char>) -> (text: String)
    ensures
        text@ == chars@,
{
    let mut text = String::new();
    let mut i: usize = 0;
    while i < chars.len()
        invariant
            i <= chars.len(),
            text@ == chars@.take(i as int),
        decreases chars.len() - i,
    {
        proof {
            assert(chars@.take(i as int + 1) =~= chars@.take(i as int).push(chars@[i as int]));
        }
        text.push(chars[i]);
        i += 1;
    }
    proof {
        assert(chars@.take(chars@.len() as int) =~= chars@);
    }
    text
}

/// The views of a list of strings.
pub open spec fn views(list: Seq<String>) -> Seq<Seq<char>> {
    list.map_values(|s: String| s@)
}


/// The characters of `chars` from `from` up to, not including, `to`.
pub fn slice_of(chars: &Vec<char>, from: usize, to: usize) -> (part: Vec<char>)
    requires
        from <= to <= chars@.len(),
    ensures
        part@ == chars@.subrange(from as int, to as int),
{
    let mut part: Vec<char> = Vec::new();
    let mut i: usize = from;
    while i < to
        invariant
            from <= i <= to <= chars@.len(),
            part@ == chars@.subrange(from as int, i as int),
        decreases to - i,
    {
        proof {
            assert(chars@.subrange(from as int, i as int + 1) =~= chars@.subrange(
                from as int,
                i as int,
            ).push(chars@[i as int]));
        }
        part.push(chars[i]);
        i += 1;
    }
    part
}

// ---------------------------------------------------------------------------
// character classes
// ---------------------------------------------------------------------------

/// The Unicode `White_Space` property.
pub open spec fn is_white_space(c: char) -> bool {
    ||| '\u{9}' <= c <= '\u{d}'
    ||| c == ' '
    ||| c == '\u{85}'
    ||| c == '\u{a0}'
    ||| c == '\u{1680}'
    ||| '\u{2000}' <= c <= '\u{200a}'
    ||| c == '\u{2028}'
    ||| c == '\u{2029}'
    ||| c == '\u{202f}'
    ||| c == '\u{205f}'
    ||| c == '\u{3000}'
}

/// Whether a character is white space.
pub fn white_space(c: char) -> (yes: bool)
    ensures
        yes == is_white_space(c),
{
    ('\u{9}' <= c && c <= '\u{d}') || c == ' ' || c == '\u{85}' || c == '\u{a0}' || c
        == '\u{1680}' || ('\u{2000}' <= c && c <= '\u{200a}') || c == '\u{2028}' || c
        == '\u{2029}' || c == '\u{202f}' || c == '\u{205f}' || c == '\u{3000}'
}

/// The Unicode general category `Cc`.
pub open spec fn is_control_char(c: char) -> bool {
    c <= '\u{1f}' || '\u{7f}' <= c <= '\u{9f}'
}

/// Whether a character is a control character.
pub fn control_char(c: char) -> (yes: bool)
    ensures
        yes == is_control_char(c),
{
    c <= '\u{1f}' || ('\u{7f}' <= c && c <= '\u{9f}')
}

// ---------------------------------------------------------------------------
// splitting and trimming
// ---------------------------------------------------------------------------

/// The index of the first `c` in `s`, or the length of `s` if there is none.
pub open spec fn find(s: Seq<char>, c: char) -> int
    decreases s.len(),
{
    if s.len() == 0 || s[0] == c {
        0
    } else {
        1 + find(s.drop_first(), c)
    }
}

/// `find` gives the first occurrence, and the length where there is none.
pub proof fn lemma_find(s: Seq<char>, c: char)
    ensures
        0 <= find(s, c) <= s.len(),
        find(s, c) < s.len() ==> s[find(s, c)] == c,
        forall|i: int| 0 <= i < find(s, c) ==> s[i] != c,
    decreases s.len(),
{
    if s.len() != 0 && s[0] != c {
        let rest = s.drop_first();
        lemma_find(rest, c);
        assert forall|i: int| 0 <= i < find(s, c) implies s[i] != c by {
            if i > 0 {
                assert(s[i] == rest[i - 1]);
            }
        }
    }
}

/// The index of the first `c` at or after `from`, or the length.
fn find_from(chars: &Vec<char>, from: usize, c: char) -> (at: usize)
    requires
        from <= chars@.len(),
    ensures
        from <= at <= chars@.len(),
        at == from + find(chars@.skip(from as int), c),
{
    let ghost rest = chars@.skip(from as int);
    let mut at: usize = from;
    while at < chars.len() && chars[at] != c
        invariant
            from <= at <= chars@.len(),
            rest == chars@.skip(from as int),
            forall|i: int| 0 <= i < at - from ==> rest[i] != c,
        decreases chars@.len() - at,
    {
        at += 1;
    }
    proof {
        lemma_find(rest, c);
        let k = find(rest, c);
        if k < at - from {
            assert(rest[k] != c);
        }
        if at - from < k {
            assert(rest[at - from] == chars@[at as int]);
        }
    }
    at
}

/// A line without the carriage return of its `\r\n` ending.
pub open spec fn without_cr(line: Seq<char>) -> Seq<char> {
    if line.len() > 0 && line.last() == '\r' {
        line.drop_last()
    } else {
        line
    }
}

/// The lines of a text: each ends at `\n` or `\r\n`, which are not part of it;
/// the last line needs no ending.
pub open spec fn lines(s: Seq<char>) -> Seq<Seq<char>>
    decreases s.len(),
{
    if s.len() == 0 {
        Seq::empty()
    } else {
        let at = find(s, '\n');
        if 0 <= at < s.len() {
            seq![without_cr(s.take(at))] + lines(s.skip(at + 1))
        } else {
            seq![s]
        }
    }
}

/// Split a text into its lines.
pub fn split_lines(chars: &Vec<char>) -> (list: Vec<Vec<char>>)
    ensures
        list@.map_values(|line: Vec<char>| line@) == lines(chars@),
{
    let mut list: Vec<Vec<char>> = Vec::new();
    let mut from: usize = 0;
    proof {
        assert(chars@.skip(0) =~= chars@);
        assert(list@.map_values(|line: Vec<char>| line@) + lines(chars@) =~= lines(chars@));
    }
    while from < chars.len()
        invariant
            from <= chars@.len(),
            list@.map_values(|line: Vec<char>| line@) + lines(chars@.skip(from as int)) == lines(
                chars@,
            ),
        decreases chars@.len() - from,
    {
        let ghost rest = chars@.skip(from as int);
        let ghost before = list@;
        let at = find_from(chars, from, '\n');
        if at < chars.len() {
            let mut to: usize = at;
            if to > from && chars[to - 1] == '\r' {
                to -= 1;
            }
            let line = slice_of(chars, from, to);
            proof {
                let k = at - from;
                assert(rest.take(k) =~= chars@.subrange(from as int, at as int));
                assert(line@ =~= without_cr(rest.take(k)));
                assert(rest.skip(k + 1) =~= chars@.skip(at as int + 1));
            }
            list.push(line);
            from = at + 1;
        } else {
            let line = slice_of(chars, from, at);
            proof {
                assert(line@ =~= rest);
                assert(chars@.skip(at as int) =~= Seq::<char>::empty());
                assert(lines(rest) =~= seq![rest]);
            }
            list.push(line);
            from = at;
        }
        proof {
            assert(list@.map_values(|line: Vec<char>| line@) =~= before.map_values(
                |line: Vec<char>| line@,
            ).push(list@.last()@));
            assert(list@.map_values(|line: Vec<char>| line@) + lines(chars@.skip(from as int))
                =~= before.map_values(|line: Vec<char>| line@) + lines(rest));
        }
    }
    proof {
        assert(chars@.skip(from as int) =~= Seq::<char>::empty());
        assert(list@.map_values(|line: Vec<char>| line@) + Seq::<Seq<char>>::empty()
            =~= list@.map_values(|line: Vec<char>| line@));
    }
    list
}

/// The parts of `s` between the separators `c`; there is always at least one.
pub open spec fn split(s: Seq<char>, c: char) -> Seq<Seq<char>>
    decreases s.len(),
{
    let at = find(s, c);
    if 0 <= at < s.len() {
        seq![s.take(at)] + split(s.skip(at + 1), c)
    } else {
        seq![s]
    }
}

/// Split a text at every `c`.
pub fn split_at_char(chars: &Vec<char>, c: char) -> (list: Vec<Vec<char>>)
    ensures
        list@.map_values(|part: Vec<char>| part@) == split(chars@, c),
{
    let mut list: Vec<Vec<char>> = Vec::new();
    let mut from: usize = 0;
    proof {
        assert(chars@.skip(0) =~= chars@);
        assert(list@.map_values(|part: Vec<char>| part@) + split(chars@, c) =~= split(chars@, c));
    }
    let mut at = find_from(chars, from, c);
    while at < chars.len()
        invariant
            from <= at <= chars@.len(),
            at == from + find(chars@.skip(from as int), c),
            list@.map_values(|part: Vec<char>| part@) + split(chars@.skip(from as int), c)
                == split(chars@, c),
        decreases chars@.len() - from,
    {
        let ghost rest = chars@.skip(from as int);
        let ghost before = list@;
        let part = slice_of(chars, from, at);
        proof {
            let k = at - from;
            assert(part@ =~= rest.take(k));
            assert(rest.skip(k + 1) =~= chars@.skip(at as int + 1));
        }
        list.push(part);
        from = at + 1;
        proof {
            assert(list@.map_values(|part: Vec<char>| part@) =~= before.map_values(
                |part: Vec<char>| part@,
            ).push(list@.last()@));
            assert(list@.map_values(|part: Vec<char>| part@) + split(chars@.skip(from as int), c)
                =~= before.map_values(|part: Vec<char>| part@) + split(rest, c));
        }
        at = find_from(chars, from, c);
    }
    let ghost rest = chars@.skip(from as int);
    let ghost before = list@;
    let part = slice_of(chars, from, at);
    proof {
        assert(part@ =~= rest);
    }
    list.push(part);
    proof {
        assert(split(rest, c) =~= seq![rest]);
        assert(list@.map_values(|part: Vec<char>| part@) =~= before.map_values(
            |part: Vec<char>| part@,
        ) + split(rest, c));
    }
    list
}

/// `s` without its leading white space.
pub open spec fn trim_start(s: Seq<char>) -> Seq<char>
    decreases s.len(),
{
    if s.len() > 0 && is_white_space(s[0]) {
        trim_start(s.drop_first())
    } else {
        s
    }
}

/// `s` without its trailing white space.
pub open spec fn trim_end(s: Seq<char>) -> Seq<char>
    decreases s.len(),
{
    if s.len() > 0 && is_white_space(s.last()) {
        trim_end(s.drop_last())
    } else {
        s
    }
}

/// `s` without its leading and trailing white space.
pub open spec fn trim(s: Seq<char>) -> Seq<char> {
    trim_end(trim_start(s))
}

/// Strip white space from both ends.
pub fn trimmed(chars: &Vec<char>) -> (part: Vec<char>)
    ensures
        part@ == trim(chars@),
{
    let mut from: usize = 0;
    proof {
        assert(chars@.skip(0) =~= chars@);
    }
    while from < chars.len() && white_space(chars[from])
        invariant
            from <= chars@.len(),
            trim_start(chars@.skip(from as int)) == trim_start(chars@),
        decreases chars@.len() - from,
    {
        proof {
            assert(chars@.skip(from as int).drop_first() =~= chars@.skip(from as int + 1));
        }
        from += 1;
    }
    let ghost rest = chars@.skip(from as int);
    proof {
        assert(trim_start(rest) == rest);
        assert(chars@.subrange(from as int, chars@.len() as int) =~= rest);
    }
    let mut to: usize = chars.len();
    while to > from && white_space(chars[to - 1])
        invariant
            from <= to <= chars@.len(),
            trim_end(chars@.subrange(from as int, to as int)) == trim_end(rest),
        decreases to,
    {
        proof {
            assert(chars@.subrange(from as int, to as int).drop_last() =~= chars@.subrange(
                from as int,
                to as int - 1,
            ));
        }
        to -= 1;
    }
    slice_of(chars, from, to)
}

/// Whether `s` starts with `prefix`.
pub open spec fn has_prefix(s: Seq<char>, prefix: Seq<char>) -> bool {
    prefix.len() <= s.len() && s.take(prefix.len() as int) == prefix
}

/// What follows `prefix` in `chars`, if `chars` starts with it.
pub fn after_prefix(chars: &Vec<char>, prefix: &str) -> (rest: Option<Vec<char>>)
    ensures
        rest is Some <==> has_prefix(chars@, prefix@),
        rest matches Some(r) ==> r@ == chars@.skip(prefix@.len() as int),
{
    let wanted = chars_of(prefix);
    if chars.len() < wanted.len() {
        return None;
    }
    let mut i: usize = 0;
    while i < wanted.len()
        invariant
            i <= wanted@.len() <= chars@.len(),
            wanted@ == prefix@,
            chars@.take(i as int) == wanted@.take(i as int),
        decreases wanted@.len() - i,
    {
        if chars[i] != wanted[i] {
            proof {
                assert(chars@.take(wanted@.len() as int)[i as int] != wanted@[i as int]);
            }
            return None;
        }
        proof {
            assert(chars@.take(i as int + 1) =~= chars@.take(i as int).push(chars@[i as int]));
            assert(wanted@.take(i as int + 1) =~= wanted@.take(i as int).push(wanted@[i as int]));
        }
        i += 1;
    }
    proof {
        assert(wanted@.take(i as int) =~= wanted@);
    }
    let rest = slice_of(chars, i, chars.len());
    proof {
        assert(rest@ =~= chars@.skip(prefix@.len() as int));
    }
    Some(rest)
}

// ---------------------------------------------------------------------------
// numbers
// ---------------------------------------------------------------------------

/// The value of a digit of a radix up to sixteen; `None` for any other character.
pub open spec fn digit_value(c: char) -> Option<nat> {
    if '0' <= c <= '9' {
        Some((c as int - '0' as int) as nat)
    } else if 'a' <= c <= 'f' {
        Some((c as int - 'a' as int + 10) as nat)
    } else if 'A' <= c <= 'F' {
        Some((c as int - 'A' as int + 10) as nat)
    } else {
        None
    }
}

/// Whether `c` is a digit of the radix.
pub open spec fn is_digit(c: char, radix: nat) -> bool {
    digit_value(c) matches Some(v) && v < radix
}

/// Whether all of `s` are digits of the radix.
pub open spec fn all_digits(s: Seq<char>, radix: nat) -> bool {
    forall|i: int| 0 <= i < s.len() ==> is_digit(#[trigger] s[i], radix)
}

/// The number that a run of digits writes.
pub open spec fn number(s: Seq<char>, radix: nat) -> nat
    decreases s.len(),
{
    if s.len() == 0 {
        0
    } else {
        number(s.drop_last(), radix) * radix + digit_value(s.last()).unwrap_or(0)
    }
}

/// The number written by a non-empty run of digits, if it is at most `max`.
pub open spec fn read_number(s: Seq<char>, radix: nat, max: nat) -> Option<nat> {
    if s.len() > 0 && all_digits(s, radix) && number(s, radix) <= max {
        Some(number(s, radix))
    } else {
        None
    }
}

/// A prefix writes no larger a number than the whole.
proof fn lemma_number_of_prefix(s: Seq<char>, n: int, radix: nat)
    requires
        0 <= n <= s.len(),
        radix >= 1,
    ensures
        number(s.take(n), radix) <= number(s, radix),
    decreases s.len() - n,
{
    if n < s.len() {
        let longer = s.take(n + 1);
        lemma_number_of_prefix(s, n + 1, radix);
        assert(longer.drop_last() =~= s.take(n));
        let shorter = number(s.take(n), radix);
        assert(shorter <= shorter * radix) by (nonlinear_arith)
            requires
                radix >= 1,
        ;
    } else {
        assert(s.take(n) =~= s);
    }
}

/// The value of a digit, or `None`.
pub fn digit_of(c: char, radix: u8) -> (value: Option<u8>)
    requires
        radix <= 16,
    ensures
        value is Some <==> is_digit(c, radix as nat),
        value matches Some(v) ==> v < radix && digit_value(c) == Some(v as nat),
{
    let v: u32 = if '0' <= c && c <= '9' {
        c as u32 - '0' as u32
    } else if 'a' <= c && c <= 'f' {
        c as u32 - 'a' as u32 + 10
    } else if 'A' <= c && c <= 'F' {
        c as u32 - 'A' as u32 + 10
    } else {
        return None;
    };
    if v < radix as u32 {
        Some(v as u8)
    } else {
        None
    }
}

/// Read a number of at most `max` from a run of digits.
pub fn parse_number(chars: &Vec<char>, radix: u8, max: u32) -> (value: Option<u32>)
    requires
        2 <= radix <= 16,
    ensures
        match value {
            Some(v) => read_number(chars@, radix as nat, max as nat) == Some(v as nat),
            None => read_number(chars@, radix as nat, max as nat) is None,
        },
{
    if chars.len() == 0 {
        return None;
    }
    let mut value: u32 = 0;
    let mut i: usize = 0;
    while i < chars.len()
        invariant
            i <= chars@.len(),
            2 <= radix <= 16,
            value <= max,
            value as nat == number(chars@.take(i as int), radix as nat),
            all_digits(chars@.take(i as int), radix as nat),
        decreases chars@.len() - i,
    {
        let ghost longer = chars@.take(i as int + 1);
        proof {
            assert(longer.drop_last() =~= chars@.take(i as int));
            assert(longer.last() == chars@[i as int]);
        }
        match digit_of(chars[i], radix) {
            None => {
                proof {
                    assert(!is_digit(chars@[i as int], radix as nat));
                }
                return None;
            },
            Some(digit) => {
                assert(value * radix <= 0xffff_ffff * 16) by (nonlinear_arith)
                    requires
                        value <= 0xffff_ffff,
                        radix <= 16,
                ;
                let next: u64 = value as u64 * radix as u64 + digit as u64;
                proof {
                    assert(number(longer, radix as nat) == next);
                    lemma_number_of_prefix(chars@, i as int + 1, radix as nat);
                }
                if next > max as u64 {
                    return None;
                }
                value = next as u32;
                proof {
                    assert(all_digits(longer, radix as nat)) by {
                        assert forall|j: int| 0 <= j < longer.len() implies is_digit(
                            #[trigger] longer[j],
                            radix as nat,
                        ) by {
                            if j < i {
                                assert(longer[j] == chars@.take(i as int)[j]);
                            }
                        }
                    }
                }
                i += 1;
            },
        }
    }
    proof {
        assert(chars@.take(i as int) =~= chars@);
    }
    Some(value)
}

/// The decimal form of a number.
pub open spec fn decimal(n: nat) -> Seq<char>
    decreases n,
{
    if n < 10 {
        seq![hex_digit(n as int)]
    } else {
        decimal(n / 10).push(hex_digit((n % 10) as int))
    }
}

/// The lower-case digit of a value below sixteen.
pub open spec fn hex_digit(v: int) -> char {
    if v < 10 {
        ('0' as int + v) as char
    } else {
        ('a' as int + v - 10) as char
    }
}

/// Two hexadecimal digits.
pub open spec fn hex2(b: u8) -> Seq<char> {
    seq![hex_digit(b as int / 16), hex_digit(b as int % 16)]
}

/// Four hexadecimal digits.
pub open spec fn hex4(n: u16) -> Seq<char> {
    hex2((n / 256) as u8) + hex2((n % 256) as u8)
}

/// The lower-case digit of a value below sixteen.
pub fn digit_char(v: u8) -> (c: char)
    requires
        v < 16,
    ensures
        c == hex_digit(v as int),
{
    if v < 10 {
        (48 + v) as char
    } else {
        (87 + v) as char
    }
}

/// Append the decimal form of a number.
pub fn push_decimal(text: &mut String, n: u64)
    ensures
        final(text)@ == old(text)@ + decimal(n as nat),
    decreases n,
{
    if n >= 10 {
        push_decimal(text, n / 10);
    }
    text.push(digit_char((n % 10) as u8));
    proof {
        assert(text@ =~= old(text)@ + decimal(n as nat));
    }
}

/// The decimal form of an integer.
pub open spec fn signed_decimal(n: int) -> Seq<char> {
    if n < 0 {
        seq!['-'] + decimal((-n) as nat)
    } else {
        decimal(n as nat)
    }
}

/// Append the decimal form of an integer.
pub fn push_signed(text: &mut String, n: i32)
    ensures
        final(text)@ == old(text)@ + signed_decimal(n as int),
{
    if n < 0 {
        text.push('-');
        push_decimal(text, (-(n as i64)) as u64);
        proof {
            assert(text@ =~= old(text)@ + signed_decimal(n as int));
        }
    } else {
        push_decimal(text, n as u64);
    }
}

/// Append two hexadecimal digits.
pub fn push_hex2(text: &mut String, b: u8)
    ensures
        final(text)@ == old(text)@ + hex2(b),
{
    text.push(digit_char(b / 16));
    text.push(digit_char(b % 16));
    proof {
        assert(text@ =~= old(text)@ + hex2(b));
    }
}

/// Append four hexadecimal digits.
pub fn push_hex4(text: &mut String, n: u16)
    ensures
        final(text)@ == old(text)@ + hex4(n),
{
    push_hex2(text, (n / 256) as u8);
    push_hex2(text, (n % 256) as u8);
    proof {
        assert(text@ =~= old(text)@ + hex4(n));
    }
}

/// What a number writes in decimal is read back as that number.
pub proof fn law_decimal_reads_back(n: nat)
    ensures
        decimal(n).len() > 0,
        all_digits(decimal(n), 10),
        number(decimal(n), 10) == n,
    decreases n,
{
    let s = decimal(n);
    if n < 10 {
        assert(s.drop_last() =~= Seq::<char>::empty());
        assert(number(s.drop_last(), 10) == 0);
        assert(digit_value(s.last()) == Some(n));
    } else {
        law_decimal_reads_back(n / 10);
        assert(s.drop_last() =~= decimal(n / 10));
        assert(digit_value(s.last()) == Some((n % 10) as nat));
        assert forall|i: int| 0 <= i < s.len() implies is_digit(#[trigger] s[i], 10) by {
            if i < s.len() - 1 {
                assert(s[i] == decimal(n / 10)[i]);
            }
        }
    }
}

/// The value of a digit that is written is the value that was to be written, in
/// either case of the letters.
pub proof fn law_digits_read_back(v: int)
    requires
        0 <= v < 16,
    ensures
        digit_value(hex_digit(v)) == Some(v as nat),
        v < 10 ==> hex_digit(v) == ('0' as int + v) as char,
        v >= 10 ==> digit_value(('A' as int + v - 10) as char) == Some(v as nat) && hex_digit(v) == (
        'a' as int + v - 10) as char,
{
}

/// A byte and a 16-bit number are written in two and four hexadecimal digits that
/// read back as it.
pub proof fn law_hexadecimal_reads_back(b: u8, n: u16)
    ensures
        hex2(b).len() == 2,
        read_number(hex2(b), 16, 0xff) == Some(b as nat),
        hex4(n).len() == 4,
        read_number(hex4(n), 16, 0xffff) == Some(n as nat),
{
    reveal_with_fuel(number, 6);
    let s = hex2(b);
    assert(digit_value(s[0]) == Some((b / 16) as nat) && digit_value(s[1]) == Some(
        (b % 16) as nat,
    ));
    assert(s.drop_last() =~= seq![s[0]]);
    assert(s.drop_last().drop_last() =~= Seq::<char>::empty());
    assert(all_digits(s, 16)) by {
        assert forall|i: int| 0 <= i < s.len() implies is_digit(#[trigger] s[i], 16) by {
            assert(i == 0 || i == 1);
        }
    }
    let t = hex4(n);
    let high = n / 256;
    let low = n % 256;
    assert(digit_value(t[0]) == Some((high / 16) as nat) && digit_value(t[1]) == Some(
        (high % 16) as nat,
    ) && digit_value(t[2]) == Some((low / 16) as nat) && digit_value(t[3]) == Some(
        (low % 16) as nat,
    ));
    assert(t.drop_last() =~= seq![t[0], t[1], t[2]]);
    assert(t.drop_last().drop_last() =~= seq![t[0], t[1]]);
    assert(t.drop_last().drop_last().drop_last() =~= seq![t[0]]);
    assert(t.drop_last().drop_last().drop_last().drop_last() =~= Seq::<char>::empty());
    assert(all_digits(t, 16)) by {
        assert forall|i: int| 0 <= i < t.len() implies is_digit(#[trigger] t[i], 16) by {
            assert(i == 0 || i == 1 || i == 2 || i == 3);
        }
    }
}

/// A text splits at its first separator into what stands before it and the parts
/// of what stands behind it; without a separator it is one part.
pub proof fn law_a_split_cuts_at_each_separator(head: Seq<char>, tail: Seq<char>, c: char)
    requires
        forall|i: int| 0 <= i < head.len() ==> #[trigger] head[i] != c,
    ensures
        split(head, c) == seq![head],
        split(head.push(c) + tail, c) == seq![head] + split(tail, c),
{
    lemma_find(head, c);
    if find(head, c) < head.len() {
        assert(head[find(head, c)] != c);
    }
    let s = head.push(c) + tail;
    lemma_find(s, c);
    assert(s[head.len() as int] == c);
    let at = find(s, c);
    if at < head.len() {
        assert(s[at] == head[at]);
    }
    assert(at == head.len());
    assert(s.take(at) =~= head);
    assert(s.skip(at + 1) =~= tail);
}

/// The first line of a text ends at the first line feed, a carriage return before
/// it is not part of it, and the other lines are those of what follows; an
/// unfinished last line is taken as it is.
pub proof fn law_a_line_ends_at_the_line_feed(line: Seq<char>, rest: Seq<char>)
    requires
        forall|i: int| 0 <= i < line.len() ==> #[trigger] line[i] != '\n',
    ensures
        line.len() > 0 ==> lines(line) == seq![line],
        lines(Seq::empty()) == Seq::<Seq<char>>::empty(),
        line.len() == 0 || line.last() != '\r' ==> lines(line.push('\n') + rest) == seq![line]
            + lines(rest),
        lines(line.push('\r').push('\n') + rest) == seq![line] + lines(rest),
{
    lemma_find(line, '\n');
    if find(line, '\n') < line.len() {
        assert(line[find(line, '\n')] != '\n');
    }
    lemma_line(line, rest);
    let longer = line.push('\r');
    assert forall|i: int| 0 <= i < longer.len() implies #[trigger] longer[i] != '\n' by {
        if i < line.len() {
            assert(longer[i] == line[i]);
        }
    }
    lemma_line(longer, rest);
    assert(longer.drop_last() =~= line);
}

proof fn lemma_line(line: Seq<char>, rest: Seq<char>)
    requires
        forall|i: int| 0 <= i < line.len() ==> #[trigger] line[i] != '\n',
    ensures
        lines(line.push('\n') + rest) == seq![without_cr(line)] + lines(rest),
{
    let s = line.push('\n') + rest;
    lemma_find(s, '\n');
    assert(s[line.len() as int] == '\n');
    let at = find(s, '\n');
    if at < line.len() {
        assert(s[at] == line[at]);
    }
    assert(at == line.len());
    assert(s.take(at) =~= line);
    assert(s.skip(at + 1) =~= rest);
}

/// Trimming takes white space off both ends and nothing else: what is left has
/// none at its ends, and stands unchanged between runs of white space.
pub proof fn law_trimming_takes_white_space_off(s: Seq<char>) -> (cut: (int, int))
    ensures
        0 <= cut.0 <= cut.1 <= s.len(),
        trim(s) == s.subrange(cut.0, cut.1),
        forall|i: int| 0 <= i < s.len() && !(cut.0 <= i < cut.1) ==> is_white_space(#[trigger] s[i]),
        trim(s).len() > 0 ==> !is_white_space(trim(s)[0]) && !is_white_space(trim(s).last()),
{
    let from = lemma_trim_start(s);
    let middle = trim_start(s);
    let to = lemma_trim_end(middle);
    assert(trim(s) =~= s.subrange(from, from + to));
    assert forall|i: int|
        0 <= i < s.len() && !(from <= i < from + to) implies is_white_space(#[trigger] s[i]) by {
        if i >= from {
            assert(middle[i - from] == s[i]);
        }
    }
    if trim(s).len() > 0 {
        assert(trim(s)[0] == middle[0]);
    }
    (from, from + to)
}

proof fn lemma_trim_start(s: Seq<char>) -> (from: int)
    ensures
        0 <= from <= s.len(),
        trim_start(s) == s.skip(from),
        forall|i: int| 0 <= i < from ==> is_white_space(#[trigger] s[i]),
        from < s.len() ==> !is_white_space(s[from]),
    decreases s.len(),
{
    if s.len() > 0 && is_white_space(s[0]) {
        let rest = s.drop_first();
        let from = lemma_trim_start(rest);
        assert(rest.skip(from) =~= s.skip(from + 1));
        assert forall|i: int| 0 <= i < from + 1 implies is_white_space(#[trigger] s[i]) by {
            if i > 0 {
                assert(rest[i - 1] == s[i]);
            }
        }
        from + 1
    } else {
        assert(s.skip(0) =~= s);
        0
    }
}

proof fn lemma_trim_end(s: Seq<char>) -> (to: int)
    ensures
        0 <= to <= s.len(),
        trim_end(s) == s.take(to),
        forall|i: int| to <= i < s.len() ==> is_white_space(#[trigger] s[i]),
        to > 0 ==> !is_white_space(s[to - 1]),
    decreases s.len(),
{
    if s.len() > 0 && is_white_space(s.last()) {
        let to = lemma_trim_end(s.drop_last());
        assert(s.drop_last().take(to) =~= s.take(to));
        assert forall|i: int| to <= i < s.len() implies is_white_space(#[trigger] s[i]) by {
            if i < s.len() - 1 {
                assert(s.drop_last()[i] == s[i]);
            }
        }
        to
    } else {
        assert(s.take(s.len() as int) =~= s);
        s.len() as int
    }
}

/// A decimal number is written without leading zeros, and a negative one with a
/// minus sign before its magnitude.
pub proof fn law_decimal_has_no_leading_zero(n: nat, z: int)
    ensures
        decimal(n)[0] == '0' ==> n == 0 && decimal(n).len() == 1,
        z >= 0 ==> signed_decimal(z) == decimal(z as nat),
        z < 0 ==> signed_decimal(z) == seq!['-'] + decimal((-z) as nat),
    decreases n,
{
    if n >= 10 {
        law_decimal_has_no_leading_zero(n / 10, z);
        law_decimal_reads_back(n / 10);
        assert(decimal(n)[0] == decimal(n / 10)[0]);
    }
    reveal_strlit("-");
    assert("-"@ =~= seq!['-']);
}

/// The control characters are the code points below 32, 127, and those from 128 to
/// 159; all of the first kind that separate words or lines are white space.
pub proof fn law_control_characters_by_number(c: char)
    ensures
        is_control_char(c) <==> (c as int) < 32 || 127 <= (c as int) < 160,
        9 <= (c as int) <= 13 || (c as int) == 32 ==> is_white_space(c),
        is_white_space(c) && (c as int) < 128 ==> 9 <= (c as int) <= 13 || (c as int) == 32,
{
}

/// Texts and lists of characters hold the same characters, and a slice those of its
/// range in their order.
pub proof fn law_conversions_keep_the_characters(
    text: &str,
    chars: Vec<char>,
    back: String,
    from: usize,
    to: usize,
    part: Vec<char>,
)
    requires
        call_ensures(chars_of, (text,), chars),
        call_ensures(string_of, (&chars,), back),
        call_ensures(slice_of, (&chars, from, to), part),
        from <= to <= text@.len(),
    ensures
        chars@ == text@,
        back@ == text@,
        part@.len() == to - from,
        forall|i: int| 0 <= i < to - from ==> #[trigger] part@[i] == text@[from + i],
{
}

/// A number is read exactly if there are digits, nothing but digits, and they write
/// at most the limit.
pub proof fn law_a_number_is_read_digit_by_digit(
    head: Vec<char>,
    whole: Vec<char>,
    digit: char,
    value: u8,
    radix: u8,
    max: u32,
    first: Option<u32>,
    all: Option<u32>,
    read: Option<u8>,
)
    requires
        2 <= radix <= 16,
        call_ensures(digit_of, (digit, radix), read),
        call_ensures(parse_number, (&head, radix, max), first),
        call_ensures(parse_number, (&whole, radix, max), all),
        whole@ == head@.push(digit),
    ensures
        read == Some(value) ==> value < radix,
        head@.len() == 0 ==> first is None,
        read is None ==> all is None,
        first is Some && read is Some ==> all == if first->0 * radix + read->0 <= max {
            Some((first->0 * radix + read->0) as u32)
        } else {
            None
        },
        head@.len() == 0 && read is Some ==> all == if read->0 <= max {
            Some(read->0 as u32)
        } else {
            None
        },
{
    assert(whole@.drop_last() =~= head@);
    assert(whole@.last() == digit);
    assert(whole@[head@.len() as int] == digit);
    assert forall|i: int| 0 <= i < head@.len() implies #[trigger] whole@[i] == head@[i] by {}
    if all_digits(head@, radix as nat) && is_digit(digit, radix as nat) {
        assert forall|i: int| 0 <= i < whole@.len() implies is_digit(
            #[trigger] whole@[i],
            radix as nat,
        ) by {
            if i < head@.len() {
                assert(is_digit(head@[i], radix as nat));
            }
        }
    }
    if all_digits(whole@, radix as nat) {
        assert(is_digit(whole@[head@.len() as int], radix as nat));
    }
    if head@.len() == 0 {
        assert(number(head@, radix as nat) == 0);
        assert(number(whole@, radix as nat) == 0 * (radix as nat) + digit_value(digit).unwrap_or(0));
    }
    if first is Some {
        assert(number(whole@, radix as nat) == first->0 * radix + digit_value(digit).unwrap_or(0));
    }
}

} // verus!
