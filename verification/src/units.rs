//! Unit-conversion evaluator.
//!
//! Parses `<number> <unit> (in|to|nach|zu) <unit>` and returns a formatted
//! result, or `None` when the input does not have this shape. The number may
//! use `.` or `,` as the decimal separator (not both); the result mirrors the
//! separator the input used. There may be no space between the number and its
//! unit. Units of different categories never convert.

use crate::calc::{calc_text, calc_text_exec, dot_to_comma, dot_to_comma_exec, has_ascii_digit};
use crate::num::{
    decimal_value, format_rat, lemma_rat_ops_values, minus, over, pair_wf, parse_decimal, plus,
    rat_add, rat_div, rat_mul, rat_sub, render, times, Rat,
};
use crate::text::{
    ascii_lower, ascii_lower_exec, chars_eq, chars_of, contains_char, is_ascii_digit,
    lemma_same_lower_at, lemma_same_lower_char, lemma_same_lower_subrange, lemma_same_lower_trim, str_eq, string_of,
    sub_chars, trim, trim_bounds, trim_chars,
};
use vstd::prelude::*;

verus! {

#[derive(Clone, Copy, PartialEq, Eq, Structural, Debug)]
pub enum Category {
    Length,
    Mass,
    Temperature,
    Time,
    Data,
    Speed,
    Volume,
}

/// A resolved unit: its category, the factor that converts a value in this
/// unit to the category's base unit (unused for temperature), and the
/// canonical display symbol.
#[derive(Clone, Copy, Debug)]
pub struct Unit {
    pub category: Category,
    pub factor: Rat,
    pub symbol: &'static str,
}

pub open spec fn mk_unit(category: Category, num: int, den: int, symbol: &'static str) -> Unit {
    Unit { category, factor: Rat { num: num as i128, den: den as i128 }, symbol }
}

fn make_unit(category: Category, num: i128, den: i128, symbol: &'static str) -> (u: Unit)
    ensures
        u == mk_unit(category, num as int, den as int, symbol),
{
    Unit { category, factor: Rat { num, den }, symbol }
}

pub open spec fn length_unit(name: Seq<char>) -> Option<Unit> {
    if name == "mm"@ || name == "millimeter"@ || name == "millimeters"@ || name == "millimetre"@ || name == "millimetres"@ {
        Some(mk_unit(Category::Length, 1, 1000, "mm"))
    } else if name == "cm"@ || name == "centimeter"@ || name == "centimeters"@ || name == "centimetre"@ || name == "centimetres"@ {
        Some(mk_unit(Category::Length, 1, 100, "cm"))
    } else if name == "m"@ || name == "meter"@ || name == "meters"@ || name == "metre"@ || name == "metres"@ {
        Some(mk_unit(Category::Length, 1, 1, "m"))
    } else if name == "km"@ || name == "kilometer"@ || name == "kilometers"@ || name == "kilometre"@ || name == "kilometres"@ {
        Some(mk_unit(Category::Length, 1000, 1, "km"))
    } else if name == "in"@ || name == "inch"@ || name == "inches"@ || name == "zoll"@ {
        Some(mk_unit(Category::Length, 254, 10000, "in"))
    } else if name == "ft"@ || name == "foot"@ || name == "feet"@ || name == "fuss"@ || name == "fuß"@ {
        Some(mk_unit(Category::Length, 3048, 10000, "ft"))
    } else if name == "yd"@ || name == "yard"@ || name == "yards"@ {
        Some(mk_unit(Category::Length, 9144, 10000, "yd"))
    } else if name == "mi"@ || name == "mile"@ || name == "miles"@ || name == "meile"@ || name == "meilen"@ {
        Some(mk_unit(Category::Length, 1609344, 1000, "mi"))
    } else {
        None
    }
}

pub open spec fn mass_unit(name: Seq<char>) -> Option<Unit> {
    if name == "mg"@ || name == "milligram"@ || name == "milligrams"@ || name == "milligramm"@ {
        Some(mk_unit(Category::Mass, 1, 1000, "mg"))
    } else if name == "g"@ || name == "gram"@ || name == "grams"@ || name == "gramm"@ {
        Some(mk_unit(Category::Mass, 1, 1, "g"))
    } else if name == "kg"@ || name == "kilogram"@ || name == "kilograms"@ || name == "kilogramm"@ {
        Some(mk_unit(Category::Mass, 1000, 1, "kg"))
    } else if name == "t"@ || name == "tonne"@ || name == "tonnes"@ || name == "ton"@ || name == "tons"@ {
        Some(mk_unit(Category::Mass, 1000000, 1, "t"))
    } else if name == "oz"@ || name == "ounce"@ || name == "ounces"@ || name == "unze"@ || name == "unzen"@ {
        Some(mk_unit(Category::Mass, 28349523125, 1000000000, "oz"))
    } else if name == "lb"@ || name == "lbs"@ || name == "pound"@ || name == "pounds"@ || name == "pfund"@ {
        Some(mk_unit(Category::Mass, 45359237, 100000, "lb"))
    } else {
        None
    }
}

pub open spec fn temperature_unit(name: Seq<char>) -> Option<Unit> {
    if name == "c"@ || name == "°c"@ || name == "celsius"@ || name == "grad"@ {
        Some(mk_unit(Category::Temperature, 0, 1, "°C"))
    } else if name == "f"@ || name == "°f"@ || name == "fahrenheit"@ {
        Some(mk_unit(Category::Temperature, 0, 1, "°F"))
    } else if name == "k"@ || name == "kelvin"@ {
        Some(mk_unit(Category::Temperature, 0, 1, "K"))
    } else {
        None
    }
}

pub open spec fn time_unit(name: Seq<char>) -> Option<Unit> {
    if name == "ms"@ || name == "millisecond"@ || name == "milliseconds"@ || name == "millisekunde"@ || name == "millisekunden"@ {
        Some(mk_unit(Category::Time, 1, 1000, "ms"))
    } else if name == "s"@ || name == "sec"@ || name == "secs"@ || name == "second"@ || name == "seconds"@ || name == "sekunde"@ || name == "sekunden"@ {
        Some(mk_unit(Category::Time, 1, 1, "s"))
    } else if name == "min"@ || name == "minute"@ || name == "minutes"@ || name == "minuten"@ {
        Some(mk_unit(Category::Time, 60, 1, "min"))
    } else if name == "h"@ || name == "hr"@ || name == "hour"@ || name == "hours"@ || name == "stunde"@ || name == "stunden"@ {
        Some(mk_unit(Category::Time, 3600, 1, "h"))
    } else if name == "d"@ || name == "day"@ || name == "days"@ || name == "tag"@ || name == "tage"@ {
        Some(mk_unit(Category::Time, 86400, 1, "d"))
    } else if name == "week"@ || name == "weeks"@ || name == "woche"@ || name == "wochen"@ {
        Some(mk_unit(Category::Time, 604800, 1, "week"))
    } else {
        None
    }
}

pub open spec fn data_unit(name: Seq<char>) -> Option<Unit> {
    if name == "b"@ || name == "byte"@ || name == "bytes"@ {
        Some(mk_unit(Category::Data, 1, 1, "B"))
    } else if name == "kb"@ || name == "kilobyte"@ || name == "kilobytes"@ {
        Some(mk_unit(Category::Data, 1000, 1, "KB"))
    } else if name == "mb"@ || name == "megabyte"@ || name == "megabytes"@ {
        Some(mk_unit(Category::Data, 1000000, 1, "MB"))
    } else if name == "gb"@ || name == "gigabyte"@ || name == "gigabytes"@ {
        Some(mk_unit(Category::Data, 1000000000, 1, "GB"))
    } else if name == "tb"@ || name == "terabyte"@ || name == "terabytes"@ {
        Some(mk_unit(Category::Data, 1000000000000, 1, "TB"))
    } else if name == "kib"@ || name == "kibibyte"@ || name == "kibibytes"@ {
        Some(mk_unit(Category::Data, 1024, 1, "KiB"))
    } else if name == "mib"@ || name == "mebibyte"@ || name == "mebibytes"@ {
        Some(mk_unit(Category::Data, 1048576, 1, "MiB"))
    } else if name == "gib"@ || name == "gibibyte"@ || name == "gibibytes"@ {
        Some(mk_unit(Category::Data, 1073741824, 1, "GiB"))
    } else if name == "tib"@ || name == "tebibyte"@ || name == "tebibytes"@ {
        Some(mk_unit(Category::Data, 1099511627776, 1, "TiB"))
    } else {
        None
    }
}

pub open spec fn speed_unit(name: Seq<char>) -> Option<Unit> {
    if name == "m/s"@ {
        Some(mk_unit(Category::Speed, 1, 1, "m/s"))
    } else if name == "km/h"@ || name == "kmh"@ || name == "kph"@ {
        Some(mk_unit(Category::Speed, 5, 18, "km/h"))
    } else if name == "mph"@ {
        Some(mk_unit(Category::Speed, 44704, 100000, "mph"))
    } else if name == "kn"@ || name == "kt"@ || name == "knot"@ || name == "knots"@ || name == "knoten"@ {
        Some(mk_unit(Category::Speed, 5144444, 10000000, "kn"))
    } else {
        None
    }
}

pub open spec fn volume_unit(name: Seq<char>) -> Option<Unit> {
    if name == "ml"@ || name == "milliliter"@ || name == "milliliters"@ || name == "millilitre"@ || name == "millilitres"@ {
        Some(mk_unit(Category::Volume, 1, 1, "ml"))
    } else if name == "l"@ || name == "liter"@ || name == "liters"@ || name == "litre"@ || name == "litres"@ {
        Some(mk_unit(Category::Volume, 1000, 1, "l"))
    } else if name == "gal"@ || name == "gallon"@ || name == "gallons"@ {
        Some(mk_unit(Category::Volume, 378541178, 100000, "gal"))
    } else if name == "fl oz"@ || name == "floz"@ || name == "fl_oz"@ {
        Some(mk_unit(Category::Volume, 295735296, 10000000, "fl oz"))
    } else if name == "cup"@ || name == "cups"@ {
        Some(mk_unit(Category::Volume, 236588236, 1000000, "cup"))
    } else {
        None
    }
}

/// The unit a (lowercased) name denotes.
pub open spec fn unit_named(name: Seq<char>) -> Option<Unit> {
    match length_unit(name) {
        Some(u) => Some(u),
        None => match mass_unit(name) {
        Some(u) => Some(u),
        None => match temperature_unit(name) {
        Some(u) => Some(u),
        None => match time_unit(name) {
        Some(u) => Some(u),
        None => match data_unit(name) {
        Some(u) => Some(u),
        None => match speed_unit(name) {
        Some(u) => Some(u),
        None => match volume_unit(name) {
        Some(u) => Some(u),
        None => None,
    },
    },
    },
    },
    },
    },
    }
}

fn length_unit_exec(name: &str) -> (r: Option<Unit>)
    ensures
        r == length_unit(name@),
        r matches Some(u) ==> u.factor.wf(),
{
    if str_eq(name, "mm") || str_eq(name, "millimeter") || str_eq(name, "millimeters") || str_eq(name, "millimetre") || str_eq(name, "millimetres") {
        Some(make_unit(Category::Length, 1, 1000, "mm"))
    } else if str_eq(name, "cm") || str_eq(name, "centimeter") || str_eq(name, "centimeters") || str_eq(name, "centimetre") || str_eq(name, "centimetres") {
        Some(make_unit(Category::Length, 1, 100, "cm"))
    } else if str_eq(name, "m") || str_eq(name, "meter") || str_eq(name, "meters") || str_eq(name, "metre") || str_eq(name, "metres") {
        Some(make_unit(Category::Length, 1, 1, "m"))
    } else if str_eq(name, "km") || str_eq(name, "kilometer") || str_eq(name, "kilometers") || str_eq(name, "kilometre") || str_eq(name, "kilometres") {
        Some(make_unit(Category::Length, 1000, 1, "km"))
    } else if str_eq(name, "in") || str_eq(name, "inch") || str_eq(name, "inches") || str_eq(name, "zoll") {
        Some(make_unit(Category::Length, 254, 10000, "in"))
    } else if str_eq(name, "ft") || str_eq(name, "foot") || str_eq(name, "feet") || str_eq(name, "fuss") || str_eq(name, "fuß") {
        Some(make_unit(Category::Length, 3048, 10000, "ft"))
    } else if str_eq(name, "yd") || str_eq(name, "yard") || str_eq(name, "yards") {
        Some(make_unit(Category::Length, 9144, 10000, "yd"))
    } else if str_eq(name, "mi") || str_eq(name, "mile") || str_eq(name, "miles") || str_eq(name, "meile") || str_eq(name, "meilen") {
        Some(make_unit(Category::Length, 1609344, 1000, "mi"))
    } else {
        None
    }
}

fn mass_unit_exec(name: &str) -> (r: Option<Unit>)
    ensures
        r == mass_unit(name@),
        r matches Some(u) ==> u.factor.wf(),
{
    if str_eq(name, "mg") || str_eq(name, "milligram") || str_eq(name, "milligrams") || str_eq(name, "milligramm") {
        Some(make_unit(Category::Mass, 1, 1000, "mg"))
    } else if str_eq(name, "g") || str_eq(name, "gram") || str_eq(name, "grams") || str_eq(name, "gramm") {
        Some(make_unit(Category::Mass, 1, 1, "g"))
    } else if str_eq(name, "kg") || str_eq(name, "kilogram") || str_eq(name, "kilograms") || str_eq(name, "kilogramm") {
        Some(make_unit(Category::Mass, 1000, 1, "kg"))
    } else if str_eq(name, "t") || str_eq(name, "tonne") || str_eq(name, "tonnes") || str_eq(name, "ton") || str_eq(name, "tons") {
        Some(make_unit(Category::Mass, 1000000, 1, "t"))
    } else if str_eq(name, "oz") || str_eq(name, "ounce") || str_eq(name, "ounces") || str_eq(name, "unze") || str_eq(name, "unzen") {
        Some(make_unit(Category::Mass, 28349523125, 1000000000, "oz"))
    } else if str_eq(name, "lb") || str_eq(name, "lbs") || str_eq(name, "pound") || str_eq(name, "pounds") || str_eq(name, "pfund") {
        Some(make_unit(Category::Mass, 45359237, 100000, "lb"))
    } else {
        None
    }
}

fn temperature_unit_exec(name: &str) -> (r: Option<Unit>)
    ensures
        r == temperature_unit(name@),
        r matches Some(u) ==> u.factor.wf(),
{
    if str_eq(name, "c") || str_eq(name, "°c") || str_eq(name, "celsius") || str_eq(name, "grad") {
        Some(make_unit(Category::Temperature, 0, 1, "°C"))
    } else if str_eq(name, "f") || str_eq(name, "°f") || str_eq(name, "fahrenheit") {
        Some(make_unit(Category::Temperature, 0, 1, "°F"))
    } else if str_eq(name, "k") || str_eq(name, "kelvin") {
        Some(make_unit(Category::Temperature, 0, 1, "K"))
    } else {
        None
    }
}

fn time_unit_exec(name: &str) -> (r: Option<Unit>)
    ensures
        r == time_unit(name@),
        r matches Some(u) ==> u.factor.wf(),
{
    if str_eq(name, "ms") || str_eq(name, "millisecond") || str_eq(name, "milliseconds") || str_eq(name, "millisekunde") || str_eq(name, "millisekunden") {
        Some(make_unit(Category::Time, 1, 1000, "ms"))
    } else if str_eq(name, "s") || str_eq(name, "sec") || str_eq(name, "secs") || str_eq(name, "second") || str_eq(name, "seconds") || str_eq(name, "sekunde") || str_eq(name, "sekunden") {
        Some(make_unit(Category::Time, 1, 1, "s"))
    } else if str_eq(name, "min") || str_eq(name, "minute") || str_eq(name, "minutes") || str_eq(name, "minuten") {
        Some(make_unit(Category::Time, 60, 1, "min"))
    } else if str_eq(name, "h") || str_eq(name, "hr") || str_eq(name, "hour") || str_eq(name, "hours") || str_eq(name, "stunde") || str_eq(name, "stunden") {
        Some(make_unit(Category::Time, 3600, 1, "h"))
    } else if str_eq(name, "d") || str_eq(name, "day") || str_eq(name, "days") || str_eq(name, "tag") || str_eq(name, "tage") {
        Some(make_unit(Category::Time, 86400, 1, "d"))
    } else if str_eq(name, "week") || str_eq(name, "weeks") || str_eq(name, "woche") || str_eq(name, "wochen") {
        Some(make_unit(Category::Time, 604800, 1, "week"))
    } else {
        None
    }
}

fn data_unit_exec(name: &str) -> (r: Option<Unit>)
    ensures
        r == data_unit(name@),
        r matches Some(u) ==> u.factor.wf(),
{
    if str_eq(name, "b") || str_eq(name, "byte") || str_eq(name, "bytes") {
        Some(make_unit(Category::Data, 1, 1, "B"))
    } else if str_eq(name, "kb") || str_eq(name, "kilobyte") || str_eq(name, "kilobytes") {
        Some(make_unit(Category::Data, 1000, 1, "KB"))
    } else if str_eq(name, "mb") || str_eq(name, "megabyte") || str_eq(name, "megabytes") {
        Some(make_unit(Category::Data, 1000000, 1, "MB"))
    } else if str_eq(name, "gb") || str_eq(name, "gigabyte") || str_eq(name, "gigabytes") {
        Some(make_unit(Category::Data, 1000000000, 1, "GB"))
    } else if str_eq(name, "tb") || str_eq(name, "terabyte") || str_eq(name, "terabytes") {
        Some(make_unit(Category::Data, 1000000000000, 1, "TB"))
    } else if str_eq(name, "kib") || str_eq(name, "kibibyte") || str_eq(name, "kibibytes") {
        Some(make_unit(Category::Data, 1024, 1, "KiB"))
    } else if str_eq(name, "mib") || str_eq(name, "mebibyte") || str_eq(name, "mebibytes") {
        Some(make_unit(Category::Data, 1048576, 1, "MiB"))
    } else if str_eq(name, "gib") || str_eq(name, "gibibyte") || str_eq(name, "gibibytes") {
        Some(make_unit(Category::Data, 1073741824, 1, "GiB"))
    } else if str_eq(name, "tib") || str_eq(name, "tebibyte") || str_eq(name, "tebibytes") {
        Some(make_unit(Category::Data, 1099511627776, 1, "TiB"))
    } else {
        None
    }
}

fn speed_unit_exec(name: &str) -> (r: Option<Unit>)
    ensures
        r == speed_unit(name@),
        r matches Some(u) ==> u.factor.wf(),
{
    if str_eq(name, "m/s") {
        Some(make_unit(Category::Speed, 1, 1, "m/s"))
    } else if str_eq(name, "km/h") || str_eq(name, "kmh") || str_eq(name, "kph") {
        Some(make_unit(Category::Speed, 5, 18, "km/h"))
    } else if str_eq(name, "mph") {
        Some(make_unit(Category::Speed, 44704, 100000, "mph"))
    } else if str_eq(name, "kn") || str_eq(name, "kt") || str_eq(name, "knot") || str_eq(name, "knots") || str_eq(name, "knoten") {
        Some(make_unit(Category::Speed, 5144444, 10000000, "kn"))
    } else {
        None
    }
}

fn volume_unit_exec(name: &str) -> (r: Option<Unit>)
    ensures
        r == volume_unit(name@),
        r matches Some(u) ==> u.factor.wf(),
{
    if str_eq(name, "ml") || str_eq(name, "milliliter") || str_eq(name, "milliliters") || str_eq(name, "millilitre") || str_eq(name, "millilitres") {
        Some(make_unit(Category::Volume, 1, 1, "ml"))
    } else if str_eq(name, "l") || str_eq(name, "liter") || str_eq(name, "liters") || str_eq(name, "litre") || str_eq(name, "litres") {
        Some(make_unit(Category::Volume, 1000, 1, "l"))
    } else if str_eq(name, "gal") || str_eq(name, "gallon") || str_eq(name, "gallons") {
        Some(make_unit(Category::Volume, 378541178, 100000, "gal"))
    } else if str_eq(name, "fl oz") || str_eq(name, "floz") || str_eq(name, "fl_oz") {
        Some(make_unit(Category::Volume, 295735296, 10000000, "fl oz"))
    } else if str_eq(name, "cup") || str_eq(name, "cups") {
        Some(make_unit(Category::Volume, 236588236, 1000000, "cup"))
    } else {
        None
    }
}

/// Looks up a unit by its lowercased name.
pub fn lookup(name: &str) -> (r: Option<Unit>)
    ensures
        r == unit_named(name@),
        r matches Some(u) ==> u.factor.wf(),
{
    if let Some(u) = length_unit_exec(name) {
        return Some(u);
    }
    if let Some(u) = mass_unit_exec(name) {
        return Some(u);
    }
    if let Some(u) = temperature_unit_exec(name) {
        return Some(u);
    }
    if let Some(u) = time_unit_exec(name) {
        return Some(u);
    }
    if let Some(u) = data_unit_exec(name) {
        return Some(u);
    }
    if let Some(u) = speed_unit_exec(name) {
        return Some(u);
    }
    if let Some(u) = volume_unit_exec(name) {
        return Some(u);
    }
    None
}

/// A temperature symbol without its degree sign.
pub open spec fn temp_sym(sym: Seq<char>) -> Seq<char> {
    if sym.len() > 0 && sym[0] == '°' {
        sym.drop_first()
    } else {
        sym
    }
}

pub open spec fn to_celsius(v: (int, int), sym: Seq<char>) -> Option<(int, int)> {
    if sym == "F"@ {
        match rat_sub(v, (32, 1)) {
            None => None,
            Some(a) => match rat_mul(a, (5, 1)) {
                None => None,
                Some(b) => rat_div(b, (9, 1)),
            },
        }
    } else if sym == "K"@ {
        rat_sub(v, (27315, 100))
    } else {
        Some(v)
    }
}

pub open spec fn from_celsius(c: (int, int), sym: Seq<char>) -> Option<(int, int)> {
    if sym == "F"@ {
        match rat_mul(c, (9, 1)) {
            None => None,
            Some(a) => match rat_div(a, (5, 1)) {
                None => None,
                Some(b) => rat_add(b, (32, 1)),
            },
        }
    } else if sym == "K"@ {
        rat_add(c, (27315, 100))
    } else {
        Some(c)
    }
}

/// `value` in `from` expressed in `to` (same category).
pub open spec fn convert(v: (int, int), from: Unit, to: Unit) -> Option<(int, int)> {
    if from.category == Category::Temperature {
        match to_celsius(v, temp_sym(from.symbol@)) {
            None => None,
            Some(c) => from_celsius(c, temp_sym(to.symbol@)),
        }
    } else {
        match rat_mul(v, from.factor.pair()) {
            None => None,
            Some(a) => rat_div(a, to.factor.pair()),
        }
    }
}

/// `s` has the connector `conn` at `i`, as a word of its own.
pub open spec fn conn_at(s: Seq<char>, conn: Seq<char>, i: int) -> bool {
    &&& 0 <= i
    &&& i + conn.len() <= s.len()
    &&& s.subrange(i, i + conn.len()) == conn
    &&& (i == 0 || s[i - 1] == ' ')
    &&& (i + conn.len() == s.len() || s[i + conn.len()] == ' ')
}

/// First position at or after `i` where `conn` stands as a word.
pub open spec fn first_conn(s: Seq<char>, conn: Seq<char>, i: int) -> Option<int>
    decreases s.len() - i,
{
    if i < 0 || i >= s.len() || i + conn.len() > s.len() {
        None
    } else if conn_at(s, conn, i) {
        Some(i)
    } else {
        first_conn(s, conn, i + 1)
    }
}

/// The connector splitting the (lowercased) query: `nach`, then `to`, `zu`,
/// `in`, each as a standalone word; the span it occupies.
pub open spec fn connector(s: Seq<char>) -> Option<(int, int)> {
    match first_conn(s, "nach"@, 0) {
        Some(i) => Some((i, i + 4)),
        None => match first_conn(s, "to"@, 0) {
            Some(i) => Some((i, i + 2)),
            None => match first_conn(s, "zu"@, 0) {
                Some(i) => Some((i, i + 2)),
                None => match first_conn(s, "in"@, 0) {
                    Some(i) => Some((i, i + 2)),
                    None => None,
                },
            },
        },
    }
}

/// Length of the leading run of digits, points and commas.
pub open spec fn num_run(s: Seq<char>, i: int) -> int
    decreases s.len() - i,
{
    if 0 <= i < s.len() && ('0' <= s[i] <= '9' || s[i] == '.' || s[i] == ',') {
        num_run(s, i + 1)
    } else {
        i
    }
}

/// `s` with every comma replaced by a point.
pub open spec fn comma_to_dot(s: Seq<char>) -> Seq<char> {
    s.map_values(|c: char|
        if c == ',' {
            '.'
        } else {
            c
        })
}

/// A number with either decimal separator, and whether it used a comma.
pub open spec fn number_value(s: Seq<char>) -> Option<((int, int), bool)> {
    let t = trim(s);
    let comma = t.contains(',');
    if comma && t.contains('.') {
        None
    } else {
        match decimal_value(comma_to_dot(t)) {
            None => None,
            Some(v) => Some((v, comma)),
        }
    }
}

/// `"1.5 km"` or `"10km"`: the value, its unit, and whether a comma was used.
pub open spec fn value_unit(s0: Seq<char>) -> Option<((int, int), Unit, bool)> {
    let s = trim(s0);
    let k = num_run(s, 0);
    let unit_str = ascii_lower(trim(s.subrange(k, s.len() as int)));
    if k == 0 || unit_str.len() == 0 {
        None
    } else {
        match number_value(s.subrange(0, k)) {
            None => None,
            Some((v, comma)) => match unit_named(unit_str) {
                None => None,
                Some(u) => Some((v, u, comma)),
            },
        }
    }
}

pub open spec fn has_digit(s: Seq<char>) -> bool {
    exists|i: int| 0 <= i < s.len() && is_ascii_digit(#[trigger] s[i])
}

/// What [`try_convert`] answers for `input`.
pub open spec fn conversion(input: Seq<char>) -> Option<Seq<char>> {
    let s = calc_text(input);
    if !has_digit(s) {
        None
    } else {
        match connector(ascii_lower(s)) {
            None => None,
            Some((a, b)) => {
                let left = trim(s.subrange(0, a));
                let right = trim(s.subrange(b, s.len() as int));
                if has_digit(right) {
                    None
                } else {
                    match unit_named(ascii_lower(right)) {
                        None => None,
                        Some(to) => match value_unit(left) {
                            None => None,
                            Some((v, from, comma)) => if from.category != to.category {
                                None
                            } else {
                                match convert(v, from, to) {
                                    None => None,
                                    Some(r) => Some(
                                        (if comma {
                                            dot_to_comma(format_rat(r))
                                        } else {
                                            format_rat(r)
                                        }) + seq![' '] + to.symbol@,
                                    ),
                                }
                            },
                        },
                    }
                }
            },
        }
    }
}

fn temp_sym_exec(sym: &'static str) -> (r: Vec<char>)
    ensures
        r@ == temp_sym(sym@),
{
    let v = chars_of(sym);
    if v.len() > 0 && v[0] == '°' {
        let r = sub_chars(&v, 1, v.len());
        assert(r@ =~= v@.drop_first());
        r
    } else {
        v
    }
}


fn is_scale(sym: &Vec<char>, name: &str) -> (r: bool)
    ensures
        r == (sym@ == name@),
{
    let n = chars_of(name);
    chars_eq(sym, &n)
}

fn to_celsius_exec(v: Rat, sym: &Vec<char>) -> (r: Option<Rat>)
    requires
        v.wf(),
    ensures
        match r {
            Some(c) => c.wf() && to_celsius(v.pair(), sym@) == Some(c.pair()),
            None => to_celsius(v.pair(), sym@) is None,
        },
{
    if is_scale(sym, "F") {
        let a = minus(v, Rat { num: 32, den: 1 })?;
        let b = times(a, Rat { num: 5, den: 1 })?;
        over(b, Rat { num: 9, den: 1 })
    } else if is_scale(sym, "K") {
        minus(v, Rat { num: 27315, den: 100 })
    } else {
        Some(v)
    }
}

fn from_celsius_exec(c: Rat, sym: &Vec<char>) -> (r: Option<Rat>)
    requires
        c.wf(),
    ensures
        match r {
            Some(v) => v.wf() && from_celsius(c.pair(), sym@) == Some(v.pair()),
            None => from_celsius(c.pair(), sym@) is None,
        },
{
    if is_scale(sym, "F") {
        let a = times(c, Rat { num: 9, den: 1 })?;
        let b = over(a, Rat { num: 5, den: 1 })?;
        plus(b, Rat { num: 32, den: 1 })
    } else if is_scale(sym, "K") {
        plus(c, Rat { num: 27315, den: 100 })
    } else {
        Some(c)
    }
}

/// Converts `value` from one unit to another of the same category.
pub fn convert_value(value: Rat, from: &Unit, to: &Unit) -> (r: Option<Rat>)
    requires
        value.wf(),
        from.factor.wf(),
        to.factor.wf(),
    ensures
        match r {
            Some(v) => v.wf() && convert(value.pair(), *from, *to) == Some(v.pair()),
            None => convert(value.pair(), *from, *to) is None,
        },
{
    if from.category == Category::Temperature {
        let fs = temp_sym_exec(from.symbol);
        let c = to_celsius_exec(value, &fs)?;
        let ts = temp_sym_exec(to.symbol);
        from_celsius_exec(c, &ts)
    } else {
        let a = times(value, from.factor)?;
        over(a, to.factor)
    }
}

fn conn_at_exec(s: &[char], conn: &[char], i: usize) -> (r: bool)
    requires
        i < s@.len(),
    ensures
        r == conn_at(s@, conn@, i as int),
{
    let n = conn.len();
    let sl = s.len();
    if n > sl - i {
        return false;
    }
    let mut k: usize = 0;
    while k < n
        invariant
            sl == s@.len(),
            n == conn@.len(),
            i < s@.len(),
            i + n <= s@.len(),
            k <= n,
            forall|j: int| 0 <= j < k ==> s@[i + j] == conn@[j],
        decreases n - k,
    {
        if s[i + k] != conn[k] {
            assert(s@.subrange(i as int, i + n)[k as int] != conn@[k as int]);
            return false;
        }
        k = k + 1;
    }
    assert(s@.subrange(i as int, i + n) =~= conn@);
    let left_ok = i == 0 || s[i - 1] == ' ';
    let right_ok = i + n == s.len() || s[i + n] == ' ';
    left_ok && right_ok
}

fn first_conn_exec(s: &[char], conn: &[char]) -> (r: Option<usize>)
    ensures
        match r {
            Some(i) => first_conn(s@, conn@, 0) == Some(i as int) && i + conn@.len() <= s@.len()
                && s@.len() == s.len(),
            None => first_conn(s@, conn@, 0) is None,
        },
{
    let mut i: usize = 0;
    while i < s.len()
        invariant
            i <= s@.len(),
            first_conn(s@, conn@, 0) == first_conn(s@, conn@, i as int),
        decreases s@.len() - i,
    {
        if conn.len() > s.len() - i {
            return None;
        }
        if conn_at_exec(s, conn, i) {
            return Some(i);
        }
        i = i + 1;
    }
    None
}

fn find_connector(s: &[char]) -> (r: Option<(usize, usize)>)
    ensures
        match r {
            Some((a, b)) => connector(s@) == Some((a as int, b as int)) && a <= b <= s@.len(),
            None => connector(s@) is None,
        },
{
    proof {
        reveal_strlit("nach");
        reveal_strlit("to");
        reveal_strlit("zu");
        reveal_strlit("in");
    }
    let c1 = chars_of("nach");
    assert(c1@.len() == 4);
    if let Some(i) = first_conn_exec(s, &c1) {
        return Some((i, i + 4));
    }
    let c2 = chars_of("to");
    assert(c2@.len() == 2);
    if let Some(i) = first_conn_exec(s, &c2) {
        return Some((i, i + 2));
    }
    let c3 = chars_of("zu");
    assert(c3@.len() == 2);
    if let Some(i) = first_conn_exec(s, &c3) {
        return Some((i, i + 2));
    }
    let c4 = chars_of("in");
    assert(c4@.len() == 2);
    if let Some(i) = first_conn_exec(s, &c4) {
        return Some((i, i + 2));
    }
    None
}

fn number_value_exec(s: &[char]) -> (r: Option<(Rat, bool)>)
    requires
        forall|i: int| 0 <= i < s@.len() ==> ('0' <= #[trigger] s@[i] <= '9' || s@[i] == '.' || s@[i] == ','),
    ensures
        match r {
            Some((v, c)) => v.wf() && number_value(s@) == Some((v.pair(), c)),
            None => number_value(s@) is None,
        },
{
    let (a, b) = trim_bounds(s);
    let t = sub_chars(s, a, b);
    let comma = contains_char(&t, ',');
    if comma && contains_char(&t, '.') {
        return None;
    }
    let mut n: Vec<char> = Vec::new();
    let mut i: usize = 0;
    while i < t.len()
        invariant
            i <= t@.len(),
            t@ == s@.subrange(a as int, b as int),
            a <= b <= s@.len(),
            forall|k: int| 0 <= k < s@.len() ==> ('0' <= #[trigger] s@[k] <= '9' || s@[k] == '.' || s@[k] == ','),
            n@ == comma_to_dot(t@.subrange(0, i as int)),
            forall|k: int| 0 <= k < n@.len() ==> ('0' <= #[trigger] n@[k] <= '9' || n@[k] == '.'),
        decreases t@.len() - i,
    {
        let c = t[i];
        assert(c == s@[a + i]);
        if c == ',' {
            n.push('.');
        } else {
            n.push(c);
        }
        i = i + 1;
        assert(n@ =~= comma_to_dot(t@.subrange(0, i as int)));
    }
    assert(t@.subrange(0, t@.len() as int) =~= t@);
    let nl = n.len();
    assert(n@.subrange(0, nl as int) =~= n@);
    match parse_decimal(&n, 0, nl) {
        Some(v) => Some((v, comma)),
        None => None,
    }
}

fn value_unit_exec(s0: &[char]) -> (r: Option<(Rat, Unit, bool)>)
    ensures
        match r {
            Some((v, u, c)) => v.wf() && u.factor.wf() && value_unit(s0@) == Some(
                (v.pair(), u, c),
            ),
            None => value_unit(s0@) is None,
        },
{
    let s = trim_chars(s0);
    let mut k: usize = 0;
    while k < s.len() && (('0' <= s[k] && s[k] <= '9') || s[k] == '.' || s[k] == ',')
        invariant
            k <= s@.len(),
            num_run(s@, 0) == num_run(s@, k as int),
            forall|i: int| 0 <= i < k ==> ('0' <= #[trigger] s@[i] <= '9' || s@[i] == '.' || s@[i] == ','),
        decreases s@.len() - k,
    {
        k = k + 1;
    }
    let rest = sub_chars(&s, k, s.len());
    let unit_str = ascii_lower_exec(&trim_chars(&rest));
    if k == 0 || unit_str.len() == 0 {
        return None;
    }
    let num = sub_chars(&s, 0, k);
    let (v, comma) = match number_value_exec(&num) {
        Some(t) => t,
        None => return None,
    };
    let name = string_of(&unit_str);
    match lookup(name.as_str()) {
        None => None,
        Some(u) => Some((v, u, comma)),
    }
}

/// Try to interpret `input` as a unit-conversion query; the formatted result
/// (e.g. `"6.213712 mi"`) or `None`.
pub fn try_convert(input: &str) -> (r: Option<String>)
    ensures
        match r {
            Some(s) => conversion(input@) == Some(s@),
            None => conversion(input@) is None,
        },
{
    let chars = chars_of(input);
    let s = calc_text_exec(&chars);
    if !has_ascii_digit(&s) {
        return None;
    }
    let low = ascii_lower_exec(&s);
    let (a, b) = match find_connector(&low) {
        Some(t) => t,
        None => return None,
    };
    proof {
        assert(low@.len() == s@.len());
    }
    let left = trim_chars(&sub_chars(&s, 0, a));
    let right = trim_chars(&sub_chars(&s, b, s.len()));
    if has_ascii_digit(&right) {
        return None;
    }
    let to_name = string_of(&ascii_lower_exec(&right));
    let to = match lookup(to_name.as_str()) {
        Some(u) => u,
        None => return None,
    };
    let (v, from, comma) = match value_unit_exec(&left) {
        Some(t) => t,
        None => return None,
    };
    if from.category != to.category {
        return None;
    }
    let result = match convert_value(v, &from, &to) {
        Some(r) => r,
        None => return None,
    };
    let f = render(result);
    let mut out = if comma {
        dot_to_comma_exec(&f)
    } else {
        f
    };
    out.push(' ');
    let sym = chars_of(to.symbol);
    let mut i: usize = 0;
    let ghost base = out@;
    while i < sym.len()
        invariant
            i <= sym@.len(),
            out@ == base + sym@.subrange(0, i as int),
        decreases sym@.len() - i,
    {
        out.push(sym[i]);
        i = i + 1;
        assert(out@ =~= base + sym@.subrange(0, i as int));
    }
    assert(sym@.subrange(0, sym@.len() as int) =~= sym@);
    Some(string_of(&out))
}

/// A character of a number: a digit, a point or a comma.
spec fn number_char(c: char) -> bool {
    '0' <= c <= '9' || c == '.' || c == ','
}

proof fn lemma_same_lower_calc_text(x: Seq<char>, y: Seq<char>)
    requires
        ascii_lower(x) == ascii_lower(y),
    ensures
        ascii_lower(calc_text(x)) == ascii_lower(calc_text(y)),
{
    lemma_same_lower_trim(x, y);
    let tx = trim(x);
    let ty = trim(y);
    assert(tx.len() == ascii_lower(tx).len() && ty.len() == ascii_lower(ty).len());
    lemma_same_lower_trim(tx, ty);
    if tx.len() > 0 {
        lemma_same_lower_at(tx, ty, tx.len() - 1);
        lemma_same_lower_char(tx.last(), ty.last());
        lemma_same_lower_subrange(tx, ty, 0, tx.len() - 1);
        assert(tx.drop_last() =~= tx.subrange(0, tx.len() - 1));
        assert(ty.drop_last() =~= ty.subrange(0, tx.len() - 1));
        lemma_same_lower_trim(tx.drop_last(), ty.drop_last());
    }
}

proof fn lemma_same_lower_has_digit(x: Seq<char>, y: Seq<char>)
    requires
        ascii_lower(x) == ascii_lower(y),
    ensures
        has_digit(x) == has_digit(y),
{
    assert(x.len() == ascii_lower(x).len());
    assert forall|i: int| 0 <= i < x.len() implies is_ascii_digit(#[trigger] x[i]) == is_ascii_digit(y[i]) by {
        lemma_same_lower_at(x, y, i);
        lemma_same_lower_char(x[i], y[i]);
    }
    if has_digit(x) {
        let i = choose|i: int| 0 <= i < x.len() && is_ascii_digit(#[trigger] x[i]);
        assert(is_ascii_digit(y[i]));
    }
    if has_digit(y) {
        let i = choose|i: int| 0 <= i < y.len() && is_ascii_digit(#[trigger] y[i]);
        assert(is_ascii_digit(x[i]));
    }
}

proof fn lemma_same_lower_num_run(x: Seq<char>, y: Seq<char>, i: int)
    requires
        ascii_lower(x) == ascii_lower(y),
        0 <= i,
    ensures
        num_run(x, i) == num_run(y, i),
    decreases x.len() - i,
{
    assert(x.len() == ascii_lower(x).len());
    if i < x.len() {
        lemma_same_lower_at(x, y, i);
        lemma_same_lower_char(x[i], y[i]);
        lemma_same_lower_num_run(x, y, i + 1);
    }
}

proof fn lemma_num_run_chars(s: Seq<char>, i: int)
    requires
        0 <= i <= s.len(),
    ensures
        i <= num_run(s, i) <= s.len(),
        forall|j: int| i <= j < num_run(s, i) ==> number_char(#[trigger] s[j]),
    decreases s.len() - i,
{
    if i < s.len() && number_char(s[i]) {
        lemma_num_run_chars(s, i + 1);
    }
}

proof fn lemma_same_lower_number(x: Seq<char>, y: Seq<char>)
    requires
        ascii_lower(x) == ascii_lower(y),
        forall|j: int| 0 <= j < x.len() ==> number_char(#[trigger] x[j]),
    ensures
        x == y,
{
    assert(x.len() == ascii_lower(x).len());
    assert forall|j: int| 0 <= j < x.len() implies x[j] == y[j] by {
        assert(number_char(x[j]));
        lemma_same_lower_at(x, y, j);
        lemma_same_lower_char(x[j], y[j]);
    }
    assert(x =~= y);
}

proof fn lemma_same_lower_value_unit(x: Seq<char>, y: Seq<char>)
    requires
        ascii_lower(x) == ascii_lower(y),
    ensures
        value_unit(x) == value_unit(y),
{
    lemma_same_lower_trim(x, y);
    let s = trim(x);
    let t = trim(y);
    assert(s.len() == ascii_lower(s).len() && t.len() == ascii_lower(t).len());
    lemma_same_lower_num_run(s, t, 0);
    let k = num_run(s, 0);
    lemma_num_run_chars(s, 0);
    lemma_same_lower_subrange(s, t, k, s.len() as int);
    lemma_same_lower_trim(s.subrange(k, s.len() as int), t.subrange(k, t.len() as int));
    lemma_same_lower_subrange(s, t, 0, k);
    assert forall|j: int| 0 <= j < k implies number_char(#[trigger] s.subrange(0, k)[j]) by {
        assert(s.subrange(0, k)[j] == s[j]);
    }
    lemma_same_lower_number(s.subrange(0, k), t.subrange(0, k));
}

proof fn lemma_first_conn_bounds(s: Seq<char>, conn: Seq<char>, i: int)
    ensures
        first_conn(s, conn, i) matches Some(j) ==> 0 <= j && j + conn.len() <= s.len(),
    decreases s.len() - i,
{
    if !(i < 0 || i >= s.len() || i + conn.len() > s.len()) && !conn_at(s, conn, i) {
        lemma_first_conn_bounds(s, conn, i + 1);
    }
}

/// Unit conversion ignores the case of ASCII letters: two queries that are
/// equal once ASCII letters are lowercased convert alike.
pub proof fn lemma_conversion_ignores_ascii_case(x: Seq<char>, y: Seq<char>)
    requires
        ascii_lower(x) == ascii_lower(y),
    ensures
        conversion(x) == conversion(y),
{
    lemma_same_lower_calc_text(x, y);
    let s = calc_text(x);
    let t = calc_text(y);
    assert(s.len() == ascii_lower(s).len() && t.len() == ascii_lower(t).len());
    lemma_same_lower_has_digit(s, t);
    let low = ascii_lower(s);
    reveal_strlit("nach");
    reveal_strlit("to");
    reveal_strlit("zu");
    reveal_strlit("in");
    lemma_first_conn_bounds(low, "nach"@, 0);
    lemma_first_conn_bounds(low, "to"@, 0);
    lemma_first_conn_bounds(low, "zu"@, 0);
    lemma_first_conn_bounds(low, "in"@, 0);
    if let Some((a, b)) = connector(low) {
        assert(0 <= a <= b <= s.len());
        lemma_same_lower_subrange(s, t, 0, a);
        lemma_same_lower_subrange(s, t, b, s.len() as int);
        lemma_same_lower_value_unit(s.subrange(0, a), t.subrange(0, a));
        lemma_same_lower_trim(s.subrange(0, a), t.subrange(0, a));
        lemma_same_lower_trim(s.subrange(b, s.len() as int), t.subrange(b, t.len() as int));
        let r1 = trim(s.subrange(b, s.len() as int));
        let r2 = trim(t.subrange(b, t.len() as int));
        lemma_same_lower_has_digit(r1, r2);
        lemma_same_lower_value_unit(trim(s.subrange(0, a)), trim(t.subrange(0, a)));
    }
}

/// A temperature in Kelvin is 273.15 less in degrees Celsius, and one in
/// degrees Celsius 273.15 more in Kelvin (`r = n / d` written `r.0 * d ==
/// n * r.1`); converting to Kelvin and back gives the value again.
pub proof fn lemma_kelvin_celsius(v: (int, int))
    requires
        pair_wf(v),
    ensures
        to_celsius(v, "K"@) matches Some(c) ==> pair_wf(c) && c.0 * (v.1 * 100) == (v.0 * 100 - 27315
            * v.1) * c.1,
        from_celsius(v, "K"@) matches Some(k) ==> pair_wf(k) && k.0 * (v.1 * 100) == (v.0 * 100
            + 27315 * v.1) * k.1,
        from_celsius(v, "K"@) matches Some(k) ==> (to_celsius(k, "K"@) matches Some(c) ==> c.0 * v.1
            == v.0 * c.1),
{
    reveal_strlit("K");
    reveal_strlit("F");
    assert("K"@ != "F"@) by {
        assert("K"@[0] != "F"@[0]);
    }
    lemma_rat_ops_values(v, (27315, 100));
    if let Some(k) = from_celsius(v, "K"@) {
        lemma_rat_ops_values(k, (27315, 100));
        if let Some(c) = to_celsius(k, "K"@) {
            let m = k.1 * 100;
            assert(m > 0) by (nonlinear_arith)
                requires
                    k.1 > 0,
                    m == k.1 * 100,
            ;
            assert(m * (c.0 * v.1) == m * (v.0 * c.1)) by (nonlinear_arith)
                requires
                    k.0 * (v.1 * 100) == (v.0 * 100 + 27315 * v.1) * k.1,
                    c.0 * (k.1 * 100) == (k.0 * 100 - 27315 * k.1) * c.1,
                    m == k.1 * 100,
            ;
            vstd::arithmetic::mul::lemma_mul_equality_converse(m, c.0 * v.1, v.0 * c.1);
        }
    }
}

/// Degrees Fahrenheit are (F - 32) * 5 / 9 degrees Celsius, and degrees
/// Celsius are C * 9 / 5 + 32 degrees Fahrenheit.
pub proof fn lemma_fahrenheit_celsius(v: (int, int))
    requires
        pair_wf(v),
    ensures
        to_celsius(v, "F"@) matches Some(c) ==> pair_wf(c) && 9 * c.0 * v.1 == 5 * (v.0 - 32 * v.1)
            * c.1,
        from_celsius(v, "F"@) matches Some(f) ==> pair_wf(f) && 5 * f.0 * v.1 == (9 * v.0 + 160
            * v.1) * f.1,
{
    reveal_strlit("F");
    lemma_rat_ops_values(v, (32, 1));
    lemma_rat_ops_values(v, (9, 1));
    if let Some(a) = rat_sub(v, (32, 1)) {
        lemma_rat_ops_values(a, (5, 1));
        if let Some(b) = rat_mul(a, (5, 1)) {
            lemma_rat_ops_values(b, (9, 1));
            if let Some(c) = rat_div(b, (9, 1)) {
                let m = a.1 * b.1;
                assert(m > 0) by (nonlinear_arith)
                    requires
                        a.1 > 0,
                        b.1 > 0,
                        m == a.1 * b.1,
                ;
                let w = v.0 - 32 * v.1;
                assert((9 * c.0 * v.1) * m == (9 * c.0 * b.1) * (v.1 * a.1)) by (nonlinear_arith)
                    requires m == a.1 * b.1;
                assert(9 * c.0 * b.1 == b.0 * c.1) by (nonlinear_arith)
                    requires c.0 * (b.1 * 9) == (b.0 * 1) * c.1;
                assert((b.0 * c.1) * (v.1 * a.1) == (b.0 * a.1) * (c.1 * v.1)) by (nonlinear_arith);
                assert(b.0 * a.1 == 5 * a.0 * b.1) by (nonlinear_arith)
                    requires b.0 * (a.1 * 1) == (a.0 * 5) * b.1;
                assert((5 * a.0 * b.1) * (c.1 * v.1) == (a.0 * v.1) * (5 * b.1 * c.1)) by (nonlinear_arith);
                assert(a.0 * v.1 == w * a.1) by (nonlinear_arith)
                    requires a.0 * (v.1 * 1) == (v.0 * 1 - 32 * v.1) * a.1, w == v.0 - 32 * v.1;
                assert((w * a.1) * (5 * b.1 * c.1) == (5 * w * c.1) * m) by (nonlinear_arith)
                    requires m == a.1 * b.1;
                assert(m * (9 * c.0 * v.1) == m * (5 * (v.0 - 32 * v.1) * c.1)) by (nonlinear_arith)
                    requires
                        (9 * c.0 * v.1) * m == (5 * w * c.1) * m,
                        w == v.0 - 32 * v.1;
                vstd::arithmetic::mul::lemma_mul_equality_converse(m, 9 * c.0 * v.1, 5 * (v.0 - 32 * v.1) * c.1);
            }
        }
    }
    if let Some(a) = rat_mul(v, (9, 1)) {
        lemma_rat_ops_values(a, (5, 1));
        if let Some(b) = rat_div(a, (5, 1)) {
            lemma_rat_ops_values(b, (32, 1));
            if let Some(f) = rat_add(b, (32, 1)) {
                let m = a.1 * b.1;
                assert(m > 0) by (nonlinear_arith)
                    requires
                        a.1 > 0,
                        b.1 > 0,
                        m == a.1 * b.1,
                ;
                // f = b + 32, b = a / 5, a = 9 v
                assert(f.0 * b.1 == (b.0 + 32 * b.1) * f.1) by (nonlinear_arith)
                    requires f.0 * (b.1 * 1) == (b.0 * 1 + 32 * b.1) * f.1;
                assert(5 * b.0 * a.1 == a.0 * b.1) by (nonlinear_arith)
                    requires b.0 * (a.1 * 5) == (a.0 * 1) * b.1;
                assert(a.0 * v.1 == 9 * v.0 * a.1) by (nonlinear_arith)
                    requires a.0 * (v.1 * 1) == (v.0 * 9) * a.1;
                assert((5 * f.0 * v.1) * m == (f.0 * b.1) * (5 * v.1 * a.1)) by (nonlinear_arith)
                    requires m == a.1 * b.1;
                assert(((b.0 + 32 * b.1) * f.1) * (5 * v.1 * a.1) == (5 * b.0 * a.1) * (v.1 * f.1) + 160
                    * b.1 * v.1 * a.1 * f.1) by (nonlinear_arith);
                assert((a.0 * b.1) * (v.1 * f.1) == (a.0 * v.1) * (b.1 * f.1)) by (nonlinear_arith);
                assert((9 * v.0 * a.1) * (b.1 * f.1) == m * (9 * v.0 * f.1)) by (nonlinear_arith)
                    requires m == a.1 * b.1;
                assert(160 * b.1 * v.1 * a.1 * f.1 == m * (160 * v.1 * f.1)) by (nonlinear_arith)
                    requires m == a.1 * b.1;
                assert(m * (9 * v.0 * f.1) + m * (160 * v.1 * f.1) == m * ((9 * v.0 + 160 * v.1) * f.1))
                    by (nonlinear_arith);
                vstd::arithmetic::mul::lemma_mul_equality_converse(m, 5 * f.0 * v.1, (9 * v.0 + 160 * v.1) * f.1);
            }
        }
    }
}

/// Outside temperatures, a conversion scales by the two units' factors: the
/// value in the target unit is the value times the source unit's factor
/// divided by the target unit's factor.
pub proof fn lemma_convert_scales(v: (int, int), from: Unit, to: Unit)
    requires
        pair_wf(v),
        from.factor.wf(),
        to.factor.wf(),
        from.category != Category::Temperature,
    ensures
        convert(v, from, to) matches Some(r) ==> pair_wf(r) && r.0 * (v.1 * from.factor.den
            * to.factor.num) == (v.0 * from.factor.num * to.factor.den) * r.1,
{
    let f = from.factor.pair();
    let t = to.factor.pair();
    lemma_rat_ops_values(v, f);
    if let Some(a) = rat_mul(v, f) {
        lemma_rat_ops_values(a, t);
        if let Some(r) = rat_div(a, t) {
            assert(t.0 != 0);
            let m = a.1;
            assert((r.0 * (v.1 * f.1 * t.0)) * m == (r.0 * (m * t.0)) * (v.1 * f.1)) by (nonlinear_arith);
            assert(r.0 * (m * t.0) == (a.0 * t.1) * r.1);
            assert((a.0 * t.1 * r.1) * (v.1 * f.1) == (a.0 * (v.1 * f.1)) * (t.1 * r.1)) by (nonlinear_arith);
            assert(a.0 * (v.1 * f.1) == (v.0 * f.0) * m);
            assert(((v.0 * f.0) * m) * (t.1 * r.1) == ((v.0 * f.0 * t.1) * r.1) * m) by (nonlinear_arith);
            assert(m * (r.0 * (v.1 * f.1 * t.0)) == m * ((v.0 * f.0 * t.1) * r.1)) by (nonlinear_arith)
                requires
                    (r.0 * (v.1 * f.1 * t.0)) * m == (r.0 * (m * t.0)) * (v.1 * f.1),
                    r.0 * (m * t.0) == (a.0 * t.1) * r.1,
                    (a.0 * t.1 * r.1) * (v.1 * f.1) == (a.0 * (v.1 * f.1)) * (t.1 * r.1),
                    a.0 * (v.1 * f.1) == (v.0 * f.0) * m,
                    ((v.0 * f.0) * m) * (t.1 * r.1) == ((v.0 * f.0 * t.1) * r.1) * m,
            ;
            vstd::arithmetic::mul::lemma_mul_equality_converse(m, r.0 * (v.1 * f.1 * t.0), (v.0 * f.0 * t.1) * r.1);
        }
    }
}

} // verus!
