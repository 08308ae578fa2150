//! Lengths of time in months, written out in English and in Russian.

use vstd::prelude::*;
use crate::text::{cat, cat3, decimal, decimal_text};

verus! {

/// The years part of an English duration.
pub open spec fn english_years(years: nat) -> Seq<char> {
    if years == 1 {
        "1 year"@
    } else {
        decimal(years) + " years"@
    }
}

/// The months part of an English duration.
pub open spec fn english_months(months: nat) -> Seq<char> {
    if months == 1 {
        "1 month"@
    } else {
        decimal(months) + " months"@
    }
}

/// `total` months in English: whole years, then the remaining months, each
/// left out when zero; "0 months" when nothing is left, which is the case
/// for every total of zero or less.
pub open spec fn english_duration(total: int) -> Seq<char> {
    if total <= 0 {
        "0 months"@
    } else {
        let years = (total / 12) as nat;
        let months = (total % 12) as nat;
        if years > 0 && months > 0 {
            english_years(years) + " "@ + english_months(months)
        } else if years > 0 {
            english_years(years)
        } else {
            english_months(months)
        }
    }
}

/// The Russian word for "year" after `n`, as this site declines it.
pub open spec fn russian_year_word(n: nat) -> Seq<char> {
    if n == 1 {
        "год"@
    } else if 2 <= n <= 4 {
        "года"@
    } else {
        "лет"@
    }
}

/// The Russian word for "month" after `n`, as this site declines it.
pub open spec fn russian_month_word(n: nat) -> Seq<char> {
    if n == 1 {
        "месяц"@
    } else if 2 <= n <= 4 {
        "месяца"@
    } else {
        "месяцев"@
    }
}

/// `total` months in Russian: whole years, then the remaining months, each
/// left out when zero; "0 месяцев" when nothing is left, which is the case
/// for every total of zero or less.
pub open spec fn russian_duration(total: int) -> Seq<char> {
    if total <= 0 {
        "0 месяцев"@
    } else {
        let years = (total / 12) as nat;
        let months = (total % 12) as nat;
        let y = decimal(years) + " "@ + russian_year_word(years);
        let m = decimal(months) + " "@ + russian_month_word(months);
        if years > 0 && months > 0 {
            y + " "@ + m
        } else if years > 0 {
            y
        } else {
            m
        }
    }
}

fn english_years_text(years: u64) -> (r: String)
    ensures
        r@ == english_years(years as nat),
{
    if years == 1 {
        String::from_str("1 year")
    } else {
        cat(decimal_text(years).as_str(), " years")
    }
}

fn english_months_text(months: u64) -> (r: String)
    ensures
        r@ == english_months(months as nat),
{
    if months == 1 {
        String::from_str("1 month")
    } else {
        cat(decimal_text(months).as_str(), " months")
    }
}

/// Writes out a duration given in months in English, e.g. "1 year 2 months".
pub fn format_duration_en(total_months: i32) -> (r: String)
    ensures
        r@ == english_duration(total_months as int),
{
    if total_months <= 0 {
        return String::from_str("0 months");
    }
    let total = total_months as u64;
    let years = total / 12;
    let months = total % 12;
    if years > 0 && months > 0 {
        cat3(english_years_text(years).as_str(), " ", english_months_text(months).as_str())
    } else if years > 0 {
        english_years_text(years)
    } else {
        english_months_text(months)
    }
}

fn russian_year_text(n: u64) -> (r: &'static str)
    ensures
        r@ == russian_year_word(n as nat),
{
    if n == 1 {
        "год"
    } else if 2 <= n && n <= 4 {
        "года"
    } else {
        "лет"
    }
}

fn russian_month_text(n: u64) -> (r: &'static str)
    ensures
        r@ == russian_month_word(n as nat),
{
    if n == 1 {
        "месяц"
    } else if 2 <= n && n <= 4 {
        "месяца"
    } else {
        "месяцев"
    }
}

/// Writes out a duration given in months in Russian, e.g. "1 год 2 месяца".
pub fn format_duration_ru(total_months: i32) -> (r: String)
    ensures
        r@ == russian_duration(total_months as int),
{
    if total_months <= 0 {
        return String::from_str("0 месяцев");
    }
    let total = total_months as u64;
    let years = total / 12;
    let months = total % 12;
    let y = cat3(decimal_text(years).as_str(), " ", russian_year_text(years));
    let m = cat3(decimal_text(months).as_str(), " ", russian_month_text(months));
    if years > 0 && months > 0 {
        cat3(y.as_str(), " ", m.as_str())
    } else if years > 0 {
        y
    } else {
        m
    }
}

} // verus!
