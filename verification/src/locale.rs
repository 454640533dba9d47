//! Brazilian-locale cell parsers: dates in `DD/MM/YYYY`, times in
//! `H:MM`, integers, currency amounts and lists of values.

use crate::calendar::{is_calendar_date, is_time_of_day, two_digits, Date, TimeOfDay};
use crate::text::{chars_of, decimal_string, decimal_text, string_of_range, trim_bounds, trimmed};
use regex::Regex;
use vstd::prelude::*;

verus! {

/// What the `regex` crate finds for `pattern` in `text`: nothing where
/// the pattern does not compile; else the first match, if there is one,
/// as the text of each group from group 0 on, a group that took no part
/// standing as the empty text.
pub uninterp spec fn regex_search(pattern: Seq<char>, text: Seq<char>) -> Option<
    Option<Seq<Seq<char>>>,
>;

/// The groups of the first match of `pattern` in `text`; none where
/// there is no match, and none where the pattern does not compile.
pub open spec fn regex_captures(pattern: Seq<char>, text: Seq<char>) -> Option<Seq<Seq<char>>> {
    match regex_search(pattern, text) {
        Some(found) => found,
        None => None,
    }
}

/// What a search found, as texts.
pub open spec fn search_view(found: Option<Option<Vec<String>>>) -> Option<
    Option<Seq<Seq<char>>>,
> {
    match found {
        Some(groups) => Some(captures_view(groups)),
        None => None,
    }
}

/// `regex::Regex::new` on `pattern`, then `regex::Regex::captures` on
/// `text`: whether the pattern compiles, and then the groups of the
/// first match, a function of the two texts alone.
#[verifier::external_body]
fn search(pattern: &str, text: &str) -> (r: Option<Option<Vec<String>>>)
    ensures
        search_view(r) == regex_search(pattern@, text@),
{
    let compiled = Regex::new(pattern).ok()?;
    let texts = |g: Option<regex::Match>| g.map_or(String::new(), |m| m.as_str().to_string());
    Some(compiled.captures(text).map(|found| found.iter().map(texts).collect()))
}

/// The groups of the first match of `pattern` in `text`.
fn first_captures(pattern: &str, text: &str) -> (r: Option<Vec<String>>)
    ensures
        captures_view(r) == regex_captures(pattern@, text@),
{
    match search(pattern, text) {
        Some(found) => found,
        None => None,
    }
}

/// Two digits, a slash, two digits, a slash, four digits.
pub open spec fn date_pattern() -> Seq<char> {
    "(\\d{2})/(\\d{2})/(\\d{4})"@
}

/// One or two digits, a colon, two digits.
pub open spec fn time_pattern() -> Seq<char> {
    "(\\d{1,2}):(\\d{2})"@
}

pub open spec fn is_digit(c: char) -> bool {
    '0' <= c && c <= '9'
}

pub open spec fn all_digits(s: Seq<char>) -> bool {
    forall|i: int| 0 <= i < s.len() ==> is_digit(#[trigger] s[i])
}

/// The number that the decimal digits `s` write.
pub open spec fn digits_value(s: Seq<char>) -> nat
    decreases s.len(),
{
    if s.len() == 0 {
        0
    } else {
        digits_value(s.drop_last()) * 10 + ((s.last() as u32 - 48) as nat)
    }
}

/// The number that `s` writes as an optional sign and decimal digits, if
/// it writes one.
pub open spec fn signed_value(s: Seq<char>) -> Option<int> {
    let negative = s.len() > 0 && s[0] == '-';
    let signed = s.len() > 0 && (s[0] == '-' || s[0] == '+');
    let body = if signed {
        s.skip(1)
    } else {
        s
    };
    if body.len() == 0 || !all_digits(body) {
        None
    } else if negative {
        Some(-(digits_value(body) as int))
    } else {
        Some(digits_value(body) as int)
    }
}

/// `s` read as a 32-bit signed integer: an optional sign and digits,
/// within the type's range.
pub open spec fn parsed_i32(s: Seq<char>) -> Option<i32> {
    match signed_value(s) {
        Some(v) => if i32::MIN <= v <= i32::MAX {
            Some(v as i32)
        } else {
            None
        },
        None => None,
    }
}

/// `s` read as a 32-bit unsigned integer: an optional plus sign and
/// digits, within the type's range.
pub open spec fn parsed_u32(s: Seq<char>) -> Option<u32> {
    if s.len() > 0 && s[0] == '-' {
        None
    } else {
        match signed_value(s) {
            Some(v) => if v <= u32::MAX {
                Some(v as u32)
            } else {
                None
            },
            None => None,
        }
    }
}

proof fn lemma_digits_value_grows(s: Seq<char>, k: int)
    requires
        0 <= k <= s.len(),
    ensures
        digits_value(s.take(k)) <= digits_value(s),
    decreases s.len() - k,
{
    if k < s.len() {
        lemma_digits_value_grows(s.drop_last(), k);
        assert(s.drop_last().take(k) =~= s.take(k));
    } else {
        assert(s.take(k) =~= s);
    }
}

/// The value of the digits `v[from..]`, unless a character there is no
/// digit, there is none at all, or the value is above `limit`.
fn read_digits(v: &Vec<char>, from: usize, limit: u64) -> (r: Option<u64>)
    requires
        from <= v.len(),
        limit <= 0xFFFF_FFFF,
    ensures
        r == ({
            let body = v@.skip(from as int);
            if body.len() > 0 && all_digits(body) && digits_value(body) <= limit {
                Some(digits_value(body) as u64)
            } else {
                None
            }
        }),
{
    let n = v.len();
    let ghost body = v@.skip(from as int);
    if from == n {
        return None;
    }
    let mut acc: u64 = 0;
    let mut i: usize = from;
    while i < n
        invariant
            from <= i <= n == v.len(),
            body == v@.skip(from as int),
            limit <= 0xFFFF_FFFF,
            acc <= limit,
            acc == digits_value(body.take(i - from)),
            forall|j: int| 0 <= j < i - from ==> is_digit(#[trigger] body[j]),
        decreases n - i,
    {
        let c = v[i];
        assert(body[i - from] == c);
        if !(c >= '0' && c <= '9') {
            return None;
        }
        let d: u64 = (c as u32 - 48) as u64;
        let next = acc * 10 + d;
        proof {
            let now = body.take(i - from + 1);
            assert(now.drop_last() =~= body.take(i - from));
            assert(now.last() == c);
            assert(digits_value(now) == next);
            lemma_digits_value_grows(body, i - from + 1);
        }
        if next > limit {
            return None;
        }
        acc = next;
        i += 1;
    }
    assert(body.take(n - from) =~= body);
    Some(acc)
}

/// Reads `v` as a 32-bit signed integer.
pub fn parse_i32_chars(v: &Vec<char>) -> (r: Option<i32>)
    ensures
        r == parsed_i32(v@),
{
    if v.len() == 0 {
        return None;
    }
    let first = v[0];
    if first == '-' {
        match read_digits(v, 1, 0x8000_0000) {
            Some(m) => Some((0 - (m as i64)) as i32),
            None => None,
        }
    } else if first == '+' {
        match read_digits(v, 1, 0x7FFF_FFFF) {
            Some(m) => Some(m as i32),
            None => None,
        }
    } else {
        assert(v@.skip(0) =~= v@);
        match read_digits(v, 0, 0x7FFF_FFFF) {
            Some(m) => Some(m as i32),
            None => None,
        }
    }
}

/// Reads `v` as a 32-bit unsigned integer.
pub fn parse_u32_chars(v: &Vec<char>) -> (r: Option<u32>)
    ensures
        r == parsed_u32(v@),
{
    if v.len() == 0 {
        return None;
    }
    let first = v[0];
    if first == '-' {
        None
    } else if first == '+' {
        match read_digits(v, 1, 0xFFFF_FFFF) {
            Some(m) => Some(m as u32),
            None => None,
        }
    } else {
        assert(v@.skip(0) =~= v@);
        match read_digits(v, 0, 0xFFFF_FFFF) {
            Some(m) => Some(m as u32),
            None => None,
        }
    }
}

/// The integer that the cell holds once trimmed, or 0 where it holds
/// none.
pub open spec fn integer_of(cell: Seq<char>) -> i32 {
    match parsed_i32(trimmed(cell)) {
        Some(v) => v,
        None => 0,
    }
}

/// Reads an integer cell; a cell that holds no integer reads as 0.
pub fn parse_int(value: &str) -> (r: i32)
    ensures
        r == integer_of(value@),
{
    let v = chars_of(value);
    let t = crate::text::trim_chars(&v);
    match parse_i32_chars(&t) {
        Some(n) => n,
        None => 0,
    }
}


/// The groups of a match as texts.
pub open spec fn captures_view(caps: Option<Vec<String>>) -> Option<Seq<Seq<char>>> {
    match caps {
        Some(groups) => Some(groups.deep_view()),
        None => None,
    }
}

/// The date that the groups of a date match write: day, month and year
/// from groups 1 to 3, if each reads as a number and the day exists.
pub open spec fn date_of_captures(caps: Option<Seq<Seq<char>>>) -> Option<Date> {
    match caps {
        Some(groups) => if groups.len() >= 4 {
            match (parsed_u32(groups[1]), parsed_u32(groups[2]), parsed_i32(groups[3])) {
                (Some(day), Some(month), Some(year)) => if is_calendar_date(
                    year as int,
                    month as int,
                    day as int,
                ) {
                    Some(Date { year, month, day })
                } else {
                    None
                },
                _ => None,
            }
        } else {
            None
        },
        None => None,
    }
}

/// The time that the groups of a time match write: hour and minute from
/// groups 1 and 2, at second 0, if each reads as a number and the time
/// exists.
pub open spec fn time_of_captures(caps: Option<Seq<Seq<char>>>) -> Option<TimeOfDay> {
    match caps {
        Some(groups) => if groups.len() >= 3 {
            match (parsed_u32(groups[1]), parsed_u32(groups[2])) {
                (Some(hour), Some(minute)) => if is_time_of_day(hour as int, minute as int, 0) {
                    Some(TimeOfDay { hour, minute, second: 0 })
                } else {
                    None
                },
                _ => None,
            }
        } else {
            None
        },
        None => None,
    }
}

/// The date that a cell holds: that of the first place in it that has the
/// shape of a date.
pub open spec fn parsed_date(text: Seq<char>) -> Option<Date> {
    date_of_captures(regex_captures(date_pattern(), text))
}

/// The time that a cell holds: that of the first place in it that has the
/// shape of a time.
pub open spec fn parsed_time(text: Seq<char>) -> Option<TimeOfDay> {
    time_of_captures(regex_captures(time_pattern(), text))
}

/// Reads the date that the groups of a date match write.
pub fn date_from_captures(caps: &Option<Vec<String>>) -> (r: Option<Date>)
    ensures
        r == date_of_captures(captures_view(*caps)),
        r matches Some(d) ==> d.wf(),
{
    match caps {
        Some(groups) => {
            if groups.len() < 4 {
                return None;
            }
            let day = match parse_u32_chars(&chars_of(groups[1].as_str())) {
                Some(n) => n,
                None => { return None; },
            };
            let month = match parse_u32_chars(&chars_of(groups[2].as_str())) {
                Some(n) => n,
                None => { return None; },
            };
            let year = match parse_i32_chars(&chars_of(groups[3].as_str())) {
                Some(n) => n,
                None => { return None; },
            };
            Date::from_ymd_opt(year, month, day)
        },
        None => None,
    }
}

/// Reads the time that the groups of a time match write.
pub fn time_from_captures(caps: &Option<Vec<String>>) -> (r: Option<TimeOfDay>)
    ensures
        r == time_of_captures(captures_view(*caps)),
        r matches Some(t) ==> t.wf(),
{
    match caps {
        Some(groups) => {
            if groups.len() < 3 {
                return None;
            }
            let hour = match parse_u32_chars(&chars_of(groups[1].as_str())) {
                Some(n) => n,
                None => { return None; },
            };
            let minute = match parse_u32_chars(&chars_of(groups[2].as_str())) {
                Some(n) => n,
                None => { return None; },
            };
            TimeOfDay::from_hms_opt(hour, minute, 0)
        },
        None => None,
    }
}

/// Reads a date cell: the first `DD/MM/YYYY` in it, if that day exists.
pub fn parse_date(text: &str) -> (r: Option<Date>)
    ensures
        r == parsed_date(text@),
        r matches Some(d) ==> d.wf(),
{
    let caps = first_captures("(\\d{2})/(\\d{2})/(\\d{4})", text);
    date_from_captures(&caps)
}

/// Reads a time cell: the first `H:MM` or `HH:MM` in it, if that time
/// exists.
pub fn parse_time(text: &str) -> (r: Option<TimeOfDay>)
    ensures
        r == parsed_time(text@),
        r matches Some(t) ==> t.wf(),
{
    let caps = first_captures("(\\d{1,2}):(\\d{2})", text);
    time_from_captures(&caps)
}

/// `s` with each `R$` taken out, left to right.
pub open spec fn without_currency_sign(s: Seq<char>) -> Seq<char>
    decreases s.len(),
{
    if s.len() >= 2 && s[0] == 'R' && s[1] == '$' {
        without_currency_sign(s.skip(2))
    } else if s.len() == 0 {
        s
    } else {
        seq![s[0]] + without_currency_sign(s.drop_first())
    }
}

/// `s` with each thousands point taken out and each decimal comma turned
/// into a point.
pub open spec fn with_decimal_point(s: Seq<char>) -> Seq<char>
    decreases s.len(),
{
    if s.len() == 0 {
        s
    } else if s[0] == '.' {
        with_decimal_point(s.drop_first())
    } else if s[0] == ',' {
        seq!['.'] + with_decimal_point(s.drop_first())
    } else {
        seq![s[0]] + with_decimal_point(s.drop_first())
    }
}

/// A currency cell as plain decimal text: without `R$`, without
/// thousands points, the decimal comma as a point, trimmed.
pub open spec fn amount_text(cell: Seq<char>) -> Seq<char> {
    trimmed(with_decimal_point(without_currency_sign(cell)))
}

fn strip_currency_sign(v: &Vec<char>) -> (r: Vec<char>)
    ensures
        r@ == without_currency_sign(v@),
{
    let n = v.len();
    let mut r: Vec<char> = Vec::new();
    let mut i: usize = 0;
    proof {
        assert(v@.skip(0) =~= v@);
        assert(r@ + without_currency_sign(v@) =~= without_currency_sign(v@));
    }
    while i < n
        invariant
            i <= n == v.len(),
            r@ + without_currency_sign(v@.skip(i as int)) == without_currency_sign(v@),
        decreases n - i,
    {
        let ghost rest = v@.skip(i as int);
        assert(rest[0] == v@[i as int]);
        if i + 1 < n && v[i] == 'R' && v[i + 1] == '$' {
            assert(rest[1] == v@[i + 1]);
            assert(rest.skip(2) =~= v@.skip(i + 2));
            i += 2;
        } else {
            proof {
                if rest.len() >= 2 {
                    assert(rest[1] == v@[i + 1]);
                }
            }
            assert(rest.drop_first() =~= v@.skip(i + 1));
            let ghost before = r@;
            r.push(v[i]);
            assert(r@ + without_currency_sign(v@.skip(i + 1)) =~= before + without_currency_sign(
                rest,
            ));
            i += 1;
        }
    }
    assert(r@ + without_currency_sign(v@.skip(n as int)) =~= r@);
    r
}

fn place_decimal_point(v: &Vec<char>) -> (r: Vec<char>)
    ensures
        r@ == with_decimal_point(v@),
{
    let n = v.len();
    let mut r: Vec<char> = Vec::new();
    let mut i: usize = 0;
    proof {
        assert(v@.skip(0) =~= v@);
        assert(r@ + with_decimal_point(v@) =~= with_decimal_point(v@));
    }
    while i < n
        invariant
            i <= n == v.len(),
            r@ + with_decimal_point(v@.skip(i as int)) == with_decimal_point(v@),
        decreases n - i,
    {
        let ghost rest = v@.skip(i as int);
        let ghost before = r@;
        assert(rest[0] == v@[i as int]);
        assert(rest.drop_first() =~= v@.skip(i + 1));
        let c = v[i];
        if c == ',' {
            r.push('.');
        } else if c != '.' {
            r.push(c);
        }
        assert(r@ + with_decimal_point(v@.skip(i + 1)) =~= before + with_decimal_point(rest));
        i += 1;
    }
    assert(r@ + with_decimal_point(v@.skip(n as int)) =~= r@);
    r
}

/// Rewrites a currency cell such as `R$ 1.234,56` as plain decimal text,
/// `1234.56`.
pub fn normalize_amount(value: &str) -> (r: String)
    ensures
        r@ == amount_text(value@),
{
    let v = chars_of(value);
    let a = strip_currency_sign(&v);
    let b = place_decimal_point(&a);
    let (from, to) = trim_bounds(&b);
    string_of_range(&b, from, to)
}

/// What follows the sign of `s`, or all of `s` where it has no sign.
pub open spec fn unsigned_part(s: Seq<char>) -> Seq<char> {
    if s.len() > 0 && (s[0] == '+' || s[0] == '-') {
        s.skip(1)
    } else {
        s
    }
}

/// `s` writes a decimal number: an optional sign, then digits with at
/// most one point among them, before them or after them, and at least
/// one digit.
pub open spec fn is_decimal_number(s: Seq<char>) -> bool {
    let body = unsigned_part(s);
    &&& forall|i: int| 0 <= i < body.len() ==> is_digit(#[trigger] body[i]) || body[i] == '.'
    &&& forall|i: int, j: int|
        0 <= i < body.len() && 0 <= j < body.len() && #[trigger] body[i] == '.'
            && #[trigger] body[j] == '.' ==> i == j
    &&& exists|i: int| 0 <= i < body.len() && is_digit(#[trigger] body[i])
}

/// `s` writes a decimal number below zero: it has a minus sign and a
/// digit that is not 0.
pub open spec fn is_negative_number(s: Seq<char>) -> bool {
    let body = unsigned_part(s);
    &&& is_decimal_number(s)
    &&& s[0] == '-'
    &&& exists|i: int| 0 <= i < body.len() && is_digit(#[trigger] body[i]) && body[i] != '0'
}

/// The amount that a currency cell holds, as plain decimal text; `0`
/// where what the cell holds is no number.
pub open spec fn amount_of(cell: Seq<char>) -> Seq<char> {
    if is_decimal_number(amount_text(cell)) {
        amount_text(cell)
    } else {
        "0"@
    }
}

/// Whether `v` writes a decimal number, and whether one below zero.
fn number_shape(v: &Vec<char>) -> (r: (bool, bool))
    ensures
        r.0 == is_decimal_number(v@),
        r.1 == is_negative_number(v@),
{
    let n = v.len();
    let minus = n > 0 && v[0] == '-';
    let from: usize = if n > 0 && (v[0] == '+' || v[0] == '-') {
        1
    } else {
        0
    };
    let ghost body = unsigned_part(v@);
    assert(body =~= v@.skip(from as int));
    let mut seen_point = false;
    let mut has_digit = false;
    let mut nonzero = false;
    let ghost mut point_at: int = 0;
    let ghost mut digit_at: int = 0;
    let ghost mut nonzero_at: int = 0;
    let mut i: usize = from;
    while i < n
        invariant
            from <= i <= n == v.len(),
            body == v@.skip(from as int),
            body == unsigned_part(v@),
            minus == (v@.len() > 0 && v@[0] == '-'),
            forall|k: int| 0 <= k < i - from ==> is_digit(#[trigger] body[k]) || body[k] == '.',
            forall|a: int, b: int|
                0 <= a < i - from && 0 <= b < i - from && #[trigger] body[a] == '.'
                    && #[trigger] body[b] == '.' ==> a == b,
            seen_point ==> 0 <= point_at < i - from && body[point_at] == '.',
            !seen_point ==> forall|k: int| 0 <= k < i - from ==> #[trigger] body[k] != '.',
            has_digit ==> 0 <= digit_at < i - from && is_digit(body[digit_at]),
            !has_digit ==> forall|k: int| 0 <= k < i - from ==> !is_digit(#[trigger] body[k]),
            nonzero ==> 0 <= nonzero_at < i - from && is_digit(body[nonzero_at])
                && body[nonzero_at] != '0',
            !nonzero ==> forall|k: int|
                0 <= k < i - from ==> !(is_digit(#[trigger] body[k]) && body[k] != '0'),
        decreases n - i,
    {
        let c = v[i];
        assert(body[i - from] == c);
        if c == '.' {
            if seen_point {
                assert(body[point_at] == '.' && body[i - from] == '.' && point_at != i - from);
                return (false, false);
            }
            seen_point = true;
            proof {
                point_at = i - from;
            }
        } else if c >= '0' && c <= '9' {
            has_digit = true;
            proof {
                digit_at = i - from;
            }
            if c != '0' {
                nonzero = true;
                proof {
                    nonzero_at = i - from;
                }
            }
        } else {
            return (false, false);
        }
        i += 1;
    }
    (has_digit, has_digit && minus && nonzero)
}

/// Whether `text` writes a decimal number below zero.
pub fn is_negative(text: &str) -> (b: bool)
    ensures
        b == is_negative_number(text@),
{
    let v = chars_of(text);
    number_shape(&v).1
}

/// Reads a currency cell such as `R$ 1.234,56` as plain decimal text,
/// `1234.56`; a cell that holds no number reads as `0`.
pub fn parse_currency(value: &str) -> (r: String)
    ensures
        r@ == amount_of(value@),
{
    let v = chars_of(value);
    let a = strip_currency_sign(&v);
    let b = place_decimal_point(&a);
    let (from, to) = trim_bounds(&b);
    let mut t: Vec<char> = Vec::new();
    let mut i: usize = from;
    while i < to
        invariant
            from <= i <= to <= b.len(),
            t@ == b@.subrange(from as int, i as int),
        decreases to - i,
    {
        t.push(b[i]);
        i += 1;
    }
    if number_shape(&t).0 {
        string_of_range(&b, from, to)
    } else {
        "0".to_owned()
    }
}

/// The number of characters of `body` before its first point, or its
/// length where it has none.
pub open spec fn point_index(body: Seq<char>) -> nat
    decreases body.len(),
{
    if body.len() == 0 || body[0] == '.' {
        0
    } else {
        1 + point_index(body.drop_first())
    }
}

/// The digits of a number before its point.
pub open spec fn whole_digits(s: Seq<char>) -> Seq<char> {
    let body = unsigned_part(s);
    body.take(point_index(body) as int)
}

/// The digit of a number in place `i` after its point, counted from 0;
/// 0 where the number has no such digit.
pub open spec fn fraction_digit(s: Seq<char>, i: int) -> nat {
    let body = unsigned_part(s);
    let at = point_index(body) + 1 + i;
    if 0 <= i && at < body.len() {
        (body[at] as u32 - 48) as nat
    } else {
        0
    }
}

/// A number in hundredths, its sign aside, rounded to the nearest
/// hundredth; a half is rounded away from zero.
pub open spec fn hundredths(s: Seq<char>) -> nat {
    digits_value(whole_digits(s)) * 100 + fraction_digit(s, 0) * 10 + fraction_digit(s, 1) + (
    if fraction_digit(s, 2) >= 5 {
        1nat
    } else {
        0nat
    })
}

/// A number with two decimals, such as `1234.50`: a minus sign where the
/// number has one, the whole part without leading zeros, a point, and
/// two digits.
pub open spec fn two_decimal_text(s: Seq<char>) -> Seq<char> {
    let h = hundredths(s);
    (if s.len() > 0 && s[0] == '-' {
        seq!['-']
    } else {
        seq![]
    }) + decimal_text(h / 100) + seq!['.'] + seq![
        crate::text::digit_char(((h % 100) / 10) as int),
        crate::text::digit_char(((h % 100) % 10) as int),
    ]
}

/// An amount as it is shown: with two decimals. What writes no number
/// is shown as `0.00`, and a number too large to count in hundredths
/// within 64 bits is shown as it is written.
pub open spec fn shown_amount(s: Seq<char>) -> Seq<char> {
    if !is_decimal_number(s) {
        "0.00"@
    } else if hundredths(s) > u64::MAX {
        s
    } else {
        two_decimal_text(s)
    }
}

proof fn lemma_point_index(body: Seq<char>, k: int)
    requires
        0 <= k <= body.len(),
        forall|j: int| 0 <= j < k ==> #[trigger] body[j] != '.',
        k < body.len() ==> body[k] == '.',
    ensures
        point_index(body) == k,
    decreases k,
{
    if k > 0 {
        let t = body.drop_first();
        assert forall|j: int| 0 <= j < k - 1 implies #[trigger] t[j] != '.' by {
            assert(t[j] == body[j + 1]);
        }
        lemma_point_index(t, k - 1);
    }
}

/// Where the digits of a number start and where its point stands: the
/// index after the sign, and the index of the point or the length.
fn number_bounds(v: &Vec<char>) -> (r: (usize, usize))
    ensures
        r.0 <= r.1 <= v.len(),
        unsigned_part(v@) == v@.skip(r.0 as int),
        point_index(unsigned_part(v@)) == r.1 - r.0,
        whole_digits(v@) == v@.subrange(r.0 as int, r.1 as int),
        r.1 < v.len() ==> v@[r.1 as int] == '.',
        forall|j: int| r.0 <= j < r.1 ==> #[trigger] v@[j] != '.',
{
    let n = v.len();
    let from: usize = if n > 0 && (v[0] == '+' || v[0] == '-') {
        1
    } else {
        0
    };
    let ghost body = unsigned_part(v@);
    assert(body =~= v@.skip(from as int));
    let mut point: usize = from;
    while point < n && v[point] != '.'
        invariant
            from <= point <= n == v.len(),
            body == v@.skip(from as int),
            forall|j: int| 0 <= j < point - from ==> #[trigger] body[j] != '.',
            forall|j: int| from <= j < point ==> #[trigger] v@[j] != '.',
        decreases n - point,
    {
        assert(body[point - from] == v@[point as int]);
        point += 1;
    }
    proof {
        if point < n {
            assert(body[point - from] == v@[point as int]);
        }
        lemma_point_index(body, point - from);
        assert(body.take(point - from) =~= v@.subrange(from as int, point as int));
    }
    (from, point)
}

proof fn lemma_number_is_digits_and_a_point(s: Seq<char>, from: int, point: int)
    requires
        is_decimal_number(s),
        0 <= from <= point <= s.len(),
        unsigned_part(s) == s.skip(from),
        point < s.len() ==> s[point] == '.',
        forall|j: int| from <= j < point ==> #[trigger] s[j] != '.',
    ensures
        forall|k: int| from <= k < s.len() && k != point ==> is_digit(#[trigger] s[k]),
{
    let body = unsigned_part(s);
    assert forall|k: int| from <= k < s.len() && k != point implies is_digit(#[trigger] s[k]) by {
        assert(body[k - from] == s[k]);
        if s[k] == '.' {
            // a second point, which a number does not have
            assert(point < s.len());
            assert(body[point - from] == s[point]);
            assert(body[k - from] == '.' && body[point - from] == '.');
        }
    }
}

/// The value of the digits `v[from..to]`, where it is within 64 bits.
fn digits_within(v: &Vec<char>, from: usize, to: usize) -> (r: Option<u64>)
    requires
        from <= to <= v.len(),
        forall|k: int| from <= k < to ==> is_digit(#[trigger] v@[k]),
    ensures
        r == (if digits_value(v@.subrange(from as int, to as int)) <= u64::MAX {
            Some(digits_value(v@.subrange(from as int, to as int)) as u64)
        } else {
            None
        }),
{
    let ghost digits = v@.subrange(from as int, to as int);
    let mut value: u64 = 0;
    let mut i: usize = from;
    while i < to
        invariant
            from <= i <= to <= v.len(),
            digits == v@.subrange(from as int, to as int),
            forall|k: int| from <= k < to ==> is_digit(#[trigger] v@[k]),
            value == digits_value(digits.take(i - from)),
        decreases to - i,
    {
        let c = v[i];
        assert(digits[i - from] == c);
        let d: u64 = (c as u32 - 48) as u64;
        proof {
            let now = digits.take(i - from + 1);
            assert(now.drop_last() =~= digits.take(i - from));
            assert(now.last() == c);
            assert(digits_value(now) == value * 10 + d);
            lemma_digits_value_grows(digits, i - from + 1);
        }
        if value > (u64::MAX - d) / 10 {
            return None;
        }
        value = value * 10 + d;
        i += 1;
    }
    assert(digits.take(to - from) =~= digits);
    Some(value)
}

/// The digit of a number in place `i` after its point.
fn digit_after_point(v: &Vec<char>, from: usize, point: usize, i: usize) -> (d: u64)
    requires
        is_decimal_number(v@),
        from <= point <= v.len(),
        unsigned_part(v@) == v@.skip(from as int),
        point_index(unsigned_part(v@)) == point - from,
        point < v.len() ==> v@[point as int] == '.',
        forall|j: int| from <= j < point ==> #[trigger] v@[j] != '.',
        i < 3,
    ensures
        d == fraction_digit(v@, i as int),
        d <= 9,
{
    let n = v.len();
    if point < n && n - point - 1 > i {
        proof {
            lemma_number_is_digits_and_a_point(v@, from as int, point as int);
            assert(unsigned_part(v@)[point - from + 1 + i] == v@[point + 1 + i]);
        }
        (v[point + 1 + i] as u32 - 48) as u64
    } else {
        0
    }
}

/// Writes an amount with two decimals.
pub fn format_amount(text: &str) -> (r: String)
    ensures
        r@ == shown_amount(text@),
{
    let v = chars_of(text);
    if !number_shape(&v).0 {
        return "0.00".to_owned();
    }
    let (from, point) = number_bounds(&v);
    proof {
        lemma_number_is_digits_and_a_point(v@, from as int, point as int);
    }
    let whole = match digits_within(&v, from, point) {
        Some(value) => value,
        None => {
            return text.to_owned();
        },
    };
    let tenths = digit_after_point(&v, from, point, 0);
    let cents = digit_after_point(&v, from, point, 1);
    let next = digit_after_point(&v, from, point, 2);
    let total: u128 = whole as u128 * 100 + tenths as u128 * 10 + cents as u128 + (if next >= 5 {
        1u128
    } else {
        0u128
    });
    assert(total == hundredths(v@));
    if total > 0xFFFF_FFFF_FFFF_FFFF {
        return text.to_owned();
    }
    let h: u64 = total as u64;
    let mut r = String::new();
    if v[0] == '-' {
        r.push('-');
    }
    let units = decimal_string(h / 100);
    crate::text::push_text(&mut r, units.as_str());
    r.push('.');
    let rest: u8 = (h % 100) as u8;
    r.push((48 + rest / 10) as char);
    r.push((48 + rest % 10) as char);
    assert(r@ =~= two_decimal_text(v@));
    r
}

pub open spec fn is_list_separator(c: char) -> bool {
    c == ',' || c == ';'
}

/// The number of leading characters of `s` before its first comma or
/// semicolon.
pub open spec fn item_len(s: Seq<char>) -> nat
    decreases s.len(),
{
    if s.len() == 0 || is_list_separator(s[0]) {
        0
    } else {
        1 + item_len(s.drop_first())
    }
}

/// The values of a cell that lists several, separated by commas or
/// semicolons: each trimmed, the empty ones left out, in order.
pub open spec fn list_items(s: Seq<char>) -> Seq<Seq<char>>
    decreases s.len(),
{
    let n = item_len(s) as int;
    let item = trimmed(s.take(n));
    let head = if item.len() > 0 {
        seq![item]
    } else {
        seq![]
    };
    if n >= s.len() {
        head
    } else {
        head + list_items(s.skip(n + 1))
    }
}

proof fn lemma_item_len(s: Seq<char>, k: int)
    requires
        0 <= k <= s.len(),
        forall|j: int| 0 <= j < k ==> !is_list_separator(#[trigger] s[j]),
        k < s.len() ==> is_list_separator(s[k]),
    ensures
        item_len(s) == k,
    decreases k,
{
    if k > 0 {
        let t = s.drop_first();
        assert forall|j: int| 0 <= j < k - 1 implies !is_list_separator(#[trigger] t[j]) by {
            assert(t[j] == s[j + 1]);
        }
        lemma_item_len(t, k - 1);
    }
}

/// Splits a cell that lists several values at commas and semicolons,
/// trims each value and leaves out the empty ones.
pub fn split_multi_value(text: &str) -> (out: Vec<String>)
    ensures
        out.deep_view() == list_items(text@),
{
    let v = chars_of(text);
    let n = v.len();
    let mut out: Vec<String> = Vec::new();
    let mut pos: usize = 0;
    let mut done = false;
    proof {
        assert(v@.skip(0) =~= v@);
        assert(out.deep_view() + list_items(v@) =~= list_items(v@));
    }
    while !done
        invariant
            pos <= n == v.len(),
            v@ == text@,
            !done ==> out.deep_view() + list_items(v@.skip(pos as int)) == list_items(v@),
            done ==> out.deep_view() == list_items(v@),
        decreases n - pos + (if done { 0int } else { 1int }),
    {
        let mut end: usize = pos;
        while end < n && !(v[end] == ',' || v[end] == ';')
            invariant
                pos <= end <= n == v.len(),
                forall|j: int| pos <= j < end ==> !is_list_separator(#[trigger] v@[j]),
            decreases n - end,
        {
            end += 1;
        }
        let ghost rest = v@.skip(pos as int);
        let ghost before = out.deep_view();
        proof {
            assert forall|j: int| 0 <= j < end - pos implies !is_list_separator(
                #[trigger] rest[j],
            ) by {
                assert(rest[j] == v@[pos + j]);
            }
            if end < n {
                assert(rest[end - pos] == v@[end as int]);
            }
            lemma_item_len(rest, end - pos);
            assert(rest.take(end - pos) =~= v@.subrange(pos as int, end as int));
        }
        let mut piece: Vec<char> = Vec::new();
        let mut k: usize = pos;
        while k < end
            invariant
                pos <= k <= end <= v.len(),
                piece@ == v@.subrange(pos as int, k as int),
            decreases end - k,
        {
            piece.push(v[k]);
            k += 1;
        }
        let (from, to) = trim_bounds(&piece);
        if to > from {
            let item = string_of_range(&piece, from, to);
            out.push(item);
            assert(out.deep_view() =~= before + seq![trimmed(rest.take(end - pos))]);
        }
        if end >= n {
            done = true;
            assert(out.deep_view() + Seq::<Seq<char>>::empty() =~= out.deep_view());
        } else {
            assert(rest.skip(end - pos + 1) =~= v@.skip(end + 1));
            assert(out.deep_view() + list_items(v@.skip(end + 1)) =~= before + list_items(rest));
            pos = end + 1;
        }
    }
    out
}


/// Four digits, a hyphen, two digits, a hyphen, two digits.
pub open spec fn iso_date_pattern() -> Seq<char> {
    "(\\d{4})-(\\d{2})-(\\d{2})"@
}

/// The date that the groups of an ISO date match write: year, month and
/// day from groups 1 to 3, if each reads as a number and the day exists.
pub open spec fn iso_date_of_captures(caps: Option<Seq<Seq<char>>>) -> Option<Date> {
    match caps {
        Some(groups) => if groups.len() >= 4 {
            match (parsed_i32(groups[1]), parsed_u32(groups[2]), parsed_u32(groups[3])) {
                (Some(year), Some(month), Some(day)) => if is_calendar_date(
                    year as int,
                    month as int,
                    day as int,
                ) {
                    Some(Date { year, month, day })
                } else {
                    None
                },
                _ => None,
            }
        } else {
            None
        },
        None => None,
    }
}

/// The date that a text holds in ISO form: that of the first place in it
/// that has the shape `YYYY-MM-DD`.
pub open spec fn parsed_iso_date(text: Seq<char>) -> Option<Date> {
    iso_date_of_captures(regex_captures(iso_date_pattern(), text))
}

/// Reads the date that the groups of an ISO date match write.
pub fn iso_date_from_captures(caps: &Option<Vec<String>>) -> (r: Option<Date>)
    ensures
        r == iso_date_of_captures(captures_view(*caps)),
        r matches Some(d) ==> d.wf(),
{
    match caps {
        Some(groups) => {
            if groups.len() < 4 {
                return None;
            }
            let year = match parse_i32_chars(&chars_of(groups[1].as_str())) {
                Some(n) => n,
                None => { return None; },
            };
            let month = match parse_u32_chars(&chars_of(groups[2].as_str())) {
                Some(n) => n,
                None => { return None; },
            };
            let day = match parse_u32_chars(&chars_of(groups[3].as_str())) {
                Some(n) => n,
                None => { return None; },
            };
            Date::from_ymd_opt(year, month, day)
        },
        None => None,
    }
}

/// Reads the first `YYYY-MM-DD` in a text, if that day exists.
pub fn parse_iso_date(text: &str) -> (r: Option<Date>)
    ensures
        r == parsed_iso_date(text@),
        r matches Some(d) ==> d.wf(),
{
    let caps = first_captures("(\\d{4})-(\\d{2})-(\\d{2})", text);
    iso_date_from_captures(&caps)
}


/// The groups of the match of a date written as `DD/MM/YYYY`: the whole,
/// then day, month and year.
pub open spec fn written_date_groups(date: Date) -> Seq<Seq<char>> {
    let day = two_digits(date.day as int);
    let month = two_digits(date.month as int);
    let year = two_digits(date.year as int / 100) + two_digits(date.year as int % 100);
    seq![day + seq!['/'] + month + seq!['/'] + year, day, month, year]
}

proof fn lemma_two_digits_value(n: int)
    requires
        0 <= n < 100,
    ensures
        all_digits(two_digits(n)),
        digits_value(two_digits(n)) == n,
        two_digits(n).len() == 2,
{
    let s = two_digits(n);
    assert(s.drop_last() =~= seq![s[0]]);
    assert(s.drop_last().drop_last() =~= Seq::<char>::empty());
    assert(digits_value(s.drop_last().drop_last()) == 0);
    assert(digits_value(s.drop_last()) == n / 10);
    assert(digits_value(s) == (n / 10) * 10 + n % 10);
}

proof fn lemma_digits_value_concat(a: Seq<char>, b: Seq<char>)
    requires
        b.len() == 2,
    ensures
        digits_value(a + b) == digits_value(a) * 100 + digits_value(b),
{
    let s = a + b;
    assert(s.drop_last() =~= a + seq![b[0]]);
    assert(s.drop_last().drop_last() =~= a);
    assert(b.drop_last() =~= seq![b[0]]);
    assert(b.drop_last().drop_last() =~= Seq::<char>::empty());
    assert(digits_value(b.drop_last().drop_last()) == 0);
    assert(digits_value(b.drop_last()) == (b[0] as u32 - 48) as nat);
    assert(digits_value(s.drop_last()) == digits_value(a) * 10 + ((b[0] as u32 - 48) as nat));
}

/// A day that exists, in a year of four digits, written as `DD/MM/YYYY`
/// and matched as such, reads back as the same day.
pub proof fn law_written_date_reads_back(date: Date)
    requires
        date.wf(),
        0 <= date.year <= 9999,
    ensures
        date_of_captures(Some(written_date_groups(date))) == Some(date),
{
    let groups = written_date_groups(date);
    lemma_two_digits_value(date.day as int);
    lemma_two_digits_value(date.month as int);
    lemma_two_digits_value(date.year as int / 100);
    lemma_two_digits_value(date.year as int % 100);
    let hi = two_digits(date.year as int / 100);
    let lo = two_digits(date.year as int % 100);
    lemma_digits_value_concat(hi, lo);
    assert(all_digits(hi + lo));
    assert(digits_value(hi + lo) == date.year);
    assert(signed_value(groups[1]) == Some(date.day as int));
    assert(signed_value(groups[2]) == Some(date.month as int));
    assert(signed_value(groups[3]) == Some(date.year as int));
    assert(parsed_u32(groups[1]) == Some(date.day));
    assert(parsed_u32(groups[2]) == Some(date.month));
    assert(parsed_i32(groups[3]) == Some(date.year));
}

/// A cell in which nothing has the shape of a date reads as no date, and
/// whatever date a cell reads as is a day that exists.
pub proof fn law_unmatched_text_reads_as_no_date(text: Seq<char>)
    ensures
        regex_captures(date_pattern(), text) is None ==> parsed_date(text) is None,
        parsed_date(text) matches Some(date) ==> date.wf(),
{
}

/// A cell whose first date-shaped place names a day that does not exist
/// reads as no date.
pub proof fn law_impossible_day_reads_as_no_date(
    text: Seq<char>,
    groups: Seq<Seq<char>>,
    day: u32,
    month: u32,
    year: i32,
)
    requires
        regex_captures(date_pattern(), text) == Some(groups),
        groups.len() >= 4,
        parsed_u32(groups[1]) == Some(day),
        parsed_u32(groups[2]) == Some(month),
        parsed_i32(groups[3]) == Some(year),
        !is_calendar_date(year as int, month as int, day as int),
    ensures
        parsed_date(text) is None,
{
}

} // verus!
