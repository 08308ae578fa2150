//! Month names of the CV, English and Russian, and the error of reading
//! the start of the current position.

use vstd::prelude::*;
use crate::text::{
    back_space, back_space_at, char_vec, find_in, find_in_at, has_prefix, same_text, skip_space,
    skip_space_at, words_at, words_in,
};

verus! {

/// The number of an English month name, January being 1.
pub open spec fn english_month(name: Seq<char>) -> Option<u32> {
    if name == "January"@ { Some(1) }
    else if name == "February"@ { Some(2) }
    else if name == "March"@ { Some(3) }
    else if name == "April"@ { Some(4) }
    else if name == "May"@ { Some(5) }
    else if name == "June"@ { Some(6) }
    else if name == "July"@ { Some(7) }
    else if name == "August"@ { Some(8) }
    else if name == "September"@ { Some(9) }
    else if name == "October"@ { Some(10) }
    else if name == "November"@ { Some(11) }
    else if name == "December"@ { Some(12) }
    else { None }
}

/// The number of a Russian month name in the nominative, capitalised,
/// "Январь" being 1.
pub open spec fn russian_month(name: Seq<char>) -> Option<u32> {
    if name == "Январь"@ { Some(1) }
    else if name == "Февраль"@ { Some(2) }
    else if name == "Март"@ { Some(3) }
    else if name == "Апрель"@ { Some(4) }
    else if name == "Май"@ { Some(5) }
    else if name == "Июнь"@ { Some(6) }
    else if name == "Июль"@ { Some(7) }
    else if name == "Август"@ { Some(8) }
    else if name == "Сентябрь"@ { Some(9) }
    else if name == "Октябрь"@ { Some(10) }
    else if name == "Ноябрь"@ { Some(11) }
    else if name == "Декабрь"@ { Some(12) }
    else { None }
}

/// Converts an English month name into its number: `Some(1)` for January
/// through `Some(12)` for December, `None` for anything else.
pub fn month_from_en(name: &str) -> (r: Option<u32>)
    ensures
        r == english_month(name@),
{
    if same_text(name, "January") { Some(1) }
    else if same_text(name, "February") { Some(2) }
    else if same_text(name, "March") { Some(3) }
    else if same_text(name, "April") { Some(4) }
    else if same_text(name, "May") { Some(5) }
    else if same_text(name, "June") { Some(6) }
    else if same_text(name, "July") { Some(7) }
    else if same_text(name, "August") { Some(8) }
    else if same_text(name, "September") { Some(9) }
    else if same_text(name, "October") { Some(10) }
    else if same_text(name, "November") { Some(11) }
    else if same_text(name, "December") { Some(12) }
    else { None }
}

/// Converts a Russian month name into its number: `Some(1)` for "Январь"
/// through `Some(12)` for "Декабрь", `None` for anything else.
pub fn month_from_ru(name: &str) -> (r: Option<u32>)
    ensures
        r == russian_month(name@),
{
    if same_text(name, "Январь") { Some(1) }
    else if same_text(name, "Февраль") { Some(2) }
    else if same_text(name, "Март") { Some(3) }
    else if same_text(name, "Апрель") { Some(4) }
    else if same_text(name, "Май") { Some(5) }
    else if same_text(name, "Июнь") { Some(6) }
    else if same_text(name, "Июль") { Some(7) }
    else if same_text(name, "Август") { Some(8) }
    else if same_text(name, "Сентябрь") { Some(9) }
    else if same_text(name, "Октябрь") { Some(10) }
    else if same_text(name, "Ноябрь") { Some(11) }
    else if same_text(name, "Декабрь") { Some(12) }
    else { None }
}

/// `std::io::Error`, carried opaquely by [`InlineStartError::Io`].
#[verifier::external_type_specification]
#[verifier::external_body]
pub struct ExIoError(std::io::Error);

/// Why the start of the current position could not be read.
#[derive(Debug)]
pub enum InlineStartError {
    /// The CV could not be read.
    Io(std::io::Error),
    /// No entry of the CV gave a month and year followed by a dash and
    /// "Present" (or "Настоящее время").
    Parse,
}

/// Where the English CV is read from.
pub const CV_EN_PATH: &'static str = "profiles/cv/en/CV.MD";

impl InlineStartError {
    /// The error's message.
    pub fn message(&self) -> (r: String)
        ensures
            r@ == match self {
                InlineStartError::Io(_) => "failed to read profiles/cv/en/CV.MD"@,
                InlineStartError::Parse => "could not parse inline start"@,
            },
    {
        match self {
            InlineStartError::Io(_) => String::from_str("failed to read profiles/cv/en/CV.MD"),
            InlineStartError::Parse => String::from_str("could not parse inline start"),
        }
    }
}

} // verus!

verus! {

/// A decimal digit.
pub open spec fn is_digit(c: char) -> bool {
    '0' <= c <= '9'
}

/// Whether every character of `d` is a decimal digit.
pub open spec fn all_digits(d: Seq<char>) -> bool {
    forall|j: int| 0 <= j < d.len() ==> is_digit(#[trigger] d[j])
}

/// The value of a run of decimal digits; 0 for none.
pub open spec fn digits_value(d: Seq<char>) -> int
    decreases d.len(),
{
    if d.len() == 0 {
        0
    } else {
        digits_value(d.drop_last()) * 10 + (d.last() as int - '0' as int)
    }
}

/// What `str::parse::<i32>` accepts: an optional sign and at least one
/// decimal digit, of a value within `i32`.
pub open spec fn parse_i32(s: Seq<char>) -> Option<i32> {
    if s.len() == 0 {
        None
    } else {
        let signed = s[0] == '-' || s[0] == '+';
        let d = if signed { s.drop_first() } else { s };
        if d.len() == 0 || !all_digits(d) {
            None
        } else {
            let v = if s[0] == '-' { -digits_value(d) } else { digits_value(d) };
            if i32::MIN <= v <= i32::MAX {
                Some(v as i32)
            } else {
                None
            }
        }
    }
}

/// A run of digits is worth no less than any of its prefixes, and nothing
/// negative.
pub proof fn lemma_digits_value_grows(d: Seq<char>, k: int)
    requires
        0 <= k <= d.len(),
        forall|j: int| 0 <= j < d.len() ==> is_digit(#[trigger] d[j]),
    ensures
        0 <= digits_value(d.take(k)) <= digits_value(d),
    decreases d.len(),
{
    if d.len() > 0 {
        let p = d.drop_last();
        assert forall|j: int| 0 <= j < p.len() implies is_digit(#[trigger] p[j]) by {
            assert(p[j] == d[j]);
        }
        if k == d.len() {
            assert(d.take(k) =~= d);
            lemma_digits_value_grows(p, p.len() as int);
            assert(p.take(p.len() as int) =~= p);
        } else {
            lemma_digits_value_grows(p, k);
            assert(p.take(k) =~= d.take(k));
            lemma_digits_value_grows(p, p.len() as int);
            assert(p.take(p.len() as int) =~= p);
        }
    }
}

/// Parses `v[from..to]` as `str::parse::<i32>` does.
pub fn parse_i32_at(v: &Vec<char>, from: usize, to: usize) -> (r: Option<i32>)
    requires
        from <= to <= v@.len(),
    ensures
        r == parse_i32(v@.subrange(from as int, to as int)),
{
    let ghost s = v@.subrange(from as int, to as int);
    if from == to {
        return None;
    }
    let neg = v[from] == '-';
    let signed = neg || v[from] == '+';
    let start = if signed { from + 1 } else { from };
    let ghost d = v@.subrange(start as int, to as int);
    assert(d =~= if signed { s.drop_first() } else { s });
    if start == to {
        return None;
    }
    let mut acc: u64 = 0;
    let mut k = start;
    while k < to
        invariant
            from <= start < to <= v@.len(),
            start <= k <= to,
            d == v@.subrange(start as int, to as int),
            s == v@.subrange(from as int, to as int),
            s.len() > 0,
            d == if signed { s.drop_first() } else { s },
            signed == (s[0] == '-' || s[0] == '+'),
            neg == (s[0] == '-'),
            acc as int == digits_value(d.take(k - start)),
            acc <= 2147483648,
            forall|j: int| 0 <= j < k - start ==> is_digit(#[trigger] d[j]),
        decreases to - k,
    {
        let c = v[k];
        if !('0' <= c && c <= '9') {
            assert(!is_digit(d[k - start]));
            assert(!all_digits(d));
            return None;
        }
        assert(d.take(k - start + 1).drop_last() =~= d.take(k - start));
        acc = acc * 10 + (c as u64 - '0' as u64);
        if acc > 2147483648 {
            proof {
                if all_digits(d) {
                    lemma_digits_value_grows(d, k - start + 1);
                }
            }
            return None;
        }
        k = k + 1;
    }
    assert(d.take(k - start) =~= d);
    if neg {
        Some((0 - acc as i64) as i32)
    } else if acc > 2147483647 {
        None
    } else {
        Some(acc as i32)
    }
}

} // verus!

verus! {

/// What the line `s[i..e]` says of the start of the current position: none
/// where it is not a list entry of the form `* <month> <year> – Present`
/// (an en or em dash; "Настоящее время" in place of "Present"), an error
/// where the year of such an entry does not parse, else year and month.
pub open spec fn line_start(s: Seq<char>, i: int, e: int) -> Option<Result<(i32, u32), ()>> {
    let a = skip_space(s, i, e);
    let b = back_space(s, a, e);
    if !(a < b && s[a] == '*') {
        None
    } else {
        let r0 = a + 1;
        let d1 = find_in(s, r0, b, '–');
        let d = if d1 < b { d1 } else { find_in(s, r0, b, '—') };
        if !(d < b) {
            None
        } else {
            let ta = skip_space(s, d + 1, b);
            let tb = back_space(s, ta, b);
            let tail = s.subrange(ta, tb);
            if !("Present"@.is_prefix_of(tail) || "Настоящее время"@.is_prefix_of(tail)) {
                None
            } else {
                let ws = words_in(s, r0, d);
                if ws.len() != 2 {
                    None
                } else {
                    match parse_i32(s.subrange(ws[1].0, ws[1].1)) {
                        None => Some(Err(())),
                        Some(y) => {
                            let w = s.subrange(ws[0].0, ws[0].1);
                            match english_month(w) {
                                Some(m) => Some(Ok((y, m))),
                                None => match russian_month(w) {
                                    Some(m) => Some(Ok((y, m))),
                                    None => None,
                                },
                            }
                        },
                    }
                }
            }
        }
    }
}

/// The start found by scanning the lines of `s` from the one at `i` on:
/// the first line that says anything decides.
pub open spec fn start_from(s: Seq<char>, i: int) -> Result<(i32, u32), ()>
    decreases s.len() - i,
{
    if i < 0 || i > s.len() {
        Err(())
    } else {
        let e = find_in(s, i, s.len() as int, '\n');
        match line_start(s, i, e) {
            Some(r) => r,
            None => if i <= e < s.len() {
                start_from(s, e + 1)
            } else {
                Err(())
            },
        }
    }
}

fn line_start_at(text: &str, v: &Vec<char>, i: usize, e: usize) -> (r: Option<Result<(i32, u32), ()>>)
    requires
        v@ == text@,
        i <= e <= v@.len(),
    ensures
        r == line_start(v@, i as int, e as int),
{
    let a = skip_space_at(v, i, e);
    let b = back_space_at(v, a, e);
    if !(a < b && v[a] == '*') {
        return None;
    }
    let r0 = a + 1;
    let d1 = find_in_at(v, r0, b, '–');
    let d = if d1 < b { d1 } else { find_in_at(v, r0, b, '—') };
    if !(d < b) {
        return None;
    }
    let ta = skip_space_at(v, d + 1, b);
    let tb = back_space_at(v, ta, b);
    let tail = char_vec(text.substring_char(ta, tb));
    if !(has_prefix(&tail, &char_vec("Present")) || has_prefix(&tail, &char_vec("Настоящее время"))) {
        return None;
    }
    let ws = words_at(v, r0, d);
    if ws.len() != 2 {
        return None;
    }
    match parse_i32_at(v, ws[1].0, ws[1].1) {
        None => Some(Err(())),
        Some(y) => {
            let w = text.substring_char(ws[0].0, ws[0].1);
            match month_from_en(w) {
                Some(m) => Some(Ok((y, m))),
                None => match month_from_ru(w) {
                    Some(m) => Some(Ok((y, m))),
                    None => None,
                },
            }
        },
    }
}

/// Reads the start of the current position from the English CV's Markdown:
/// the year and month of the first list entry of the form
/// `* <month> <year> – Present` (an en or em dash; English or Russian month
/// name; "Настоящее время" in place of "Present"). A matching entry whose
/// year does not parse, or no matching entry, is a parse error.
pub fn inline_start_from(content: &str) -> (r: Result<(i32, u32), InlineStartError>)
    ensures
        match start_from(content@, 0) {
            Ok(p) => r == Ok::<(i32, u32), InlineStartError>(p),
            Err(_) => r matches Err(InlineStartError::Parse),
        },
{
    let v = char_vec(content);
    let n = v.len();
    let mut pos: usize = 0;
    loop
        invariant
            v@ == content@,
            n == v@.len(),
            pos <= n,
            start_from(v@, pos as int) == start_from(v@, 0),
        decreases n - pos,
    {
        let e = find_in_at(&v, pos, n, '\n');
        match line_start_at(content, &v, pos, e) {
            Some(Ok(p)) => {
                return Ok(p);
            },
            Some(Err(_)) => {
                return Err(InlineStartError::Parse);
            },
            None => {},
        }
        if e < n {
            pos = e + 1;
        } else {
            return Err(InlineStartError::Parse);
        }
    }
}

} // verus!

verus! {

/// The Russian name of month `month` in lower case, January being 1.
pub open spec fn russian_month_lower(month: u32) -> Option<Seq<char>> {
    if month == 1 { Some("январь"@) }
    else if month == 2 { Some("февраль"@) }
    else if month == 3 { Some("март"@) }
    else if month == 4 { Some("апрель"@) }
    else if month == 5 { Some("май"@) }
    else if month == 6 { Some("июнь"@) }
    else if month == 7 { Some("июль"@) }
    else if month == 8 { Some("август"@) }
    else if month == 9 { Some("сентябрь"@) }
    else if month == 10 { Some("октябрь"@) }
    else if month == 11 { Some("ноябрь"@) }
    else if month == 12 { Some("декабрь"@) }
    else { None }
}

/// The Russian name of a month number in lower case: `Some("январь")` for
/// 1 through `Some("декабрь")` for 12, `None` for anything else.
pub fn russian_month_name(month: u32) -> (r: Option<&'static str>)
    ensures
        match r {
            Some(name) => russian_month_lower(month) == Some(name@),
            None => russian_month_lower(month) is None,
        },
{
    if month == 1 { Some("январь") }
    else if month == 2 { Some("февраль") }
    else if month == 3 { Some("март") }
    else if month == 4 { Some("апрель") }
    else if month == 5 { Some("май") }
    else if month == 6 { Some("июнь") }
    else if month == 7 { Some("июль") }
    else if month == 8 { Some("август") }
    else if month == 9 { Some("сентябрь") }
    else if month == 10 { Some("октябрь") }
    else if month == 11 { Some("ноябрь") }
    else if month == 12 { Some("декабрь") }
    else { None }
}

/// The upper-case form of a character, as `char::to_uppercase` gives it.
pub uninterp spec fn upper_of(c: char) -> Seq<char>;

/// Relies on `char::to_uppercase`: the Unicode upper-case mapping of `c`.
#[verifier::external_body]
fn uppercase_char(c: char) -> (r: String)
    ensures
        r@ == upper_of(c),
{
    c.to_uppercase().collect()
}

/// `text` with its first character in upper case; empty for empty text.
pub fn capitalize_first(text: &str) -> (r: String)
    ensures
        r@ == if text@.len() == 0 {
            Seq::<char>::empty()
        } else {
            upper_of(text@[0]) + text@.drop_first()
        },
{
    let n = text.unicode_len();
    if n == 0 {
        return String::new();
    }
    let mut s = uppercase_char(text.get_char(0));
    s.append(text.substring_char(1, n));
    assert(text@.subrange(1, n as int) =~= text@.drop_first());
    s
}

} // verus!
