//! Local wall-clock time as plain fields, and the timestamped names of output files.
use chrono::{Datelike, Timelike};
use vstd::prelude::*;
use crate::text::{padded_decimal, push_char, push_padded_decimal};

verus! {

/// A local date and time of day.
#[derive(Debug, Clone, Copy, PartialEq, Eq, Structural)]
pub struct LocalTime {
    pub year: i32,
    pub month: u32,
    pub day: u32,
    pub hour: u32,
    pub minute: u32,
    pub second: u32,
}

impl LocalTime {
    /// Every field lies in its calendar range.
    pub open spec fn wf(&self) -> bool {
        &&& 1 <= self.month <= 12
        &&& 1 <= self.day <= 31
        &&& self.hour <= 23
        &&& self.minute <= 59
        &&& self.second <= 59
    }
}

/// Relies on `chrono::Local::now` and the `Datelike` and `Timelike` accessors,
/// whose documented ranges are month 1 to 12, day 1 to 31, hour 0 to 23,
/// minute 0 to 59 and second 0 to 59.
#[verifier::external_body]
pub(crate) fn local_now() -> (r: LocalTime)
    ensures
        r.wf(),
{
    let t = chrono::Local::now();
    LocalTime {
        year: t.year(),
        month: t.month(),
        day: t.day(),
        hour: t.hour(),
        minute: t.minute(),
        second: t.second(),
    }
}

/// The year as `%Y` writes it: at least four digits, with a sign before a
/// negative year and before a year above 9999.
pub open spec fn year_text(y: int) -> Seq<char> {
    if y < 0 {
        seq!['-'] + padded_decimal((-y) as nat, 4)
    } else if y > 9999 {
        seq!['+'] + padded_decimal(y as nat, 4)
    } else {
        padded_decimal(y as nat, 4)
    }
}

/// `YYYYMMDD-HHMMSS`.
pub open spec fn stamp_of(t: LocalTime) -> Seq<char> {
    year_text(t.year as int) + padded_decimal(t.month as nat, 2) + padded_decimal(t.day as nat, 2)
        + seq!['-'] + padded_decimal(t.hour as nat, 2) + padded_decimal(t.minute as nat, 2)
        + padded_decimal(t.second as nat, 2)
}

/// The extension of a tabular or text result, and of a list of documents.
pub open spec fn extension(documents: bool) -> Seq<char> {
    if documents {
        "dbeer.json"@
    } else {
        "dbeer"@
    }
}

/// `<dest_folder>/<stamp>.<extension>`.
pub open spec fn output_path_of(dest_folder: Seq<char>, t: LocalTime, documents: bool) -> Seq<char> {
    dest_folder + seq!['/'] + stamp_of(t) + seq!['.'] + extension(documents)
}

/// The timestamp `YYYYMMDD-HHMMSS` of `t`.
pub fn stamp(t: &LocalTime) -> (r: String)
    ensures
        r@ == stamp_of(*t),
{
    let mut s = String::new();
    if t.year < 0 {
        push_char(&mut s, '-');
        push_padded_decimal(&mut s, (-(t.year as i64)) as u64, 4);
    } else {
        if t.year > 9999 {
            push_char(&mut s, '+');
        }
        push_padded_decimal(&mut s, t.year as u64, 4);
    }
    push_padded_decimal(&mut s, t.month as u64, 2);
    push_padded_decimal(&mut s, t.day as u64, 2);
    push_char(&mut s, '-');
    push_padded_decimal(&mut s, t.hour as u64, 2);
    push_padded_decimal(&mut s, t.minute as u64, 2);
    push_padded_decimal(&mut s, t.second as u64, 2);
    assert(s@ =~= stamp_of(*t));
    s
}

/// The path of an output file written at time `t`: `.dbeer` for tables and text,
/// `.dbeer.json` for document lists.
pub fn output_path(dest_folder: &str, t: &LocalTime, documents: bool) -> (r: String)
    ensures
        r@ == output_path_of(dest_folder@, *t, documents),
{
    let mut s = String::new();
    s.append(dest_folder);
    push_char(&mut s, '/');
    let st = stamp(t);
    s.append(st.as_str());
    push_char(&mut s, '.');
    if documents {
        s.append("dbeer.json");
    } else {
        s.append("dbeer");
    }
    assert(s@ =~= output_path_of(dest_folder@, *t, documents));
    s
}

/// The path of an output file written now.
pub fn output_path_now(dest_folder: &str, documents: bool) -> (r: String)
    ensures
        exists|t: LocalTime| t.wf() && r@ == #[trigger] output_path_of(dest_folder@, t, documents),
{
    let t = local_now();
    let r = output_path(dest_folder, &t, documents);
    assert(t.wf() && r@ == output_path_of(dest_folder@, t, documents));
    r
}

} // verus!
