//! The C# class that mirrors the variable table, for `snap7dotnet`'s
//! `ReadClass<T>`: one property per variable, a String split into one
//! `byte` property per DB byte plus a computed `string` property.

use vstd::prelude::*;
use vstd::string::StringExecFns;

use crate::model::variable::{VarDef, VarType};
use crate::text::{
    decimal_text, digit_char, law_decimal_round_trip, law_decimal_text_injective, parse_unsigned_spec,
    push_decimal, push_str,
};

verus! {

/// The C# type of a variable that is not a String.
pub open spec fn csharp_type(t: VarType) -> Seq<char> {
    match t {
        VarType::Bool => "bool"@,
        VarType::Byte => "byte"@,
        VarType::Word => "ushort"@,
        VarType::Int => "short"@,
        VarType::DWord => "uint"@,
        VarType::DInt => "int"@,
        VarType::Real => "float"@,
        VarType::String { .. } => "string"@,
    }
}

/// One auto-property with a trailing comment, as a line.
pub open spec fn property_line(ty: Seq<char>, name: Seq<char>, comment: Seq<char>) -> Seq<char> {
    "    public "@ + ty + " "@ + name + " { get; set; } // "@ + comment + "\n"@
}

/// `Byte <offset>`.
pub open spec fn byte_comment(offset: nat) -> Seq<char> {
    "Byte "@ + decimal_text(offset)
}

/// The name of byte `k` (counted from 1) of a String variable.
pub open spec fn byte_field_name(name: Seq<char>, k: nat) -> Seq<char> {
    name + "_"@ + decimal_text(k)
}

/// The `byte` properties of the first `n` bytes of a String variable.
pub open spec fn string_byte_lines(name: Seq<char>, offset: nat, n: nat) -> Seq<char>
    decreases n,
{
    if n == 0 {
        Seq::empty()
    } else {
        string_byte_lines(name, offset, (n - 1) as nat) + property_line(
            "byte"@,
            byte_field_name(name, n),
            byte_comment((offset + n - 1) as nat),
        )
    }
}

/// The names of the first `n` byte properties, separated by `, `.
pub open spec fn byte_field_list(name: Seq<char>, n: nat) -> Seq<char>
    decreases n,
{
    if n == 0 {
        Seq::empty()
    } else if n == 1 {
        byte_field_name(name, 1)
    } else {
        byte_field_list(name, (n - 1) as nat) + ", "@ + byte_field_name(name, n)
    }
}

/// The computed `string` property of a String variable: its bytes read as
/// ASCII, trailing NULs removed.
pub open spec fn string_helper_lines(name: Seq<char>, n: nat) -> Seq<char> {
    "    public string "@ + name + " =>\n"@
        + "        System.Text.Encoding.ASCII.GetString(new byte[] { "@ + byte_field_list(name, n)
        + " }).TrimEnd('\\0');\n"@
}

/// The C# lines of one variable.
pub open spec fn definition_text(d: VarDef) -> Seq<char> {
    let o = d.byte_offset as nat;
    match d.var_type {
        VarType::Bool => property_line(
            "bool"@,
            d.name@,
            byte_comment(o) + ", Bit "@ + decimal_text(d.bit_offset as nat),
        ),
        VarType::String { length } => string_byte_lines(d.name@, o, length as nat)
            + string_helper_lines(d.name@, length as nat),
        _ => property_line(csharp_type(d.var_type), d.name@, byte_comment(o)),
    }
}

/// The C# lines of all variables, in table order.
pub open spec fn definitions_text(defs: Seq<VarDef>) -> Seq<char>
    decreases defs.len(),
{
    if defs.len() == 0 {
        Seq::empty()
    } else {
        definitions_text(defs.drop_last()) + definition_text(defs.last())
    }
}

/// The whole C# file for data block `db_number`, generated at `generated`.
pub open spec fn csharp_class_text(db_number: u32, generated: Seq<char>, defs: Seq<VarDef>) -> Seq<char> {
    "// Auto-generated by Siemens PLC Monitor\n"@ + "// DB: "@ + decimal_text(db_number as nat)
        + " | Generated: "@ + generated + "\n"@ + "// Compatible with snap7dotnet ReadClass<T>\n\n"@
        + "public class DB"@ + decimal_text(db_number as nat) + " {\n"@ + definitions_text(defs)
        + "}\n"@
}

fn push_property_line(out: &mut String, ty: &str, name: &str, comment: &str)
    ensures
        final(out)@ == old(out)@ + property_line(ty@, name@, comment@),
{
    let ghost start = out@;
    push_str(out, "    public ");
    push_str(out, ty);
    push_str(out, " ");
    push_str(out, name);
    push_str(out, " { get; set; } // ");
    push_str(out, comment);
    push_str(out, "\n");
    assert(out@ =~= start + property_line(ty@, name@, comment@));
}

fn byte_comment_string(offset: u64) -> (r: String)
    ensures
        r@ == byte_comment(offset as nat),
{
    let mut s = String::from_str("Byte ");
    push_decimal(&mut s, offset);
    s
}

fn byte_field_name_string(name: &str, k: u64) -> (r: String)
    ensures
        r@ == byte_field_name(name@, k as nat),
{
    let mut s = String::from_str(name);
    push_str(&mut s, "_");
    push_decimal(&mut s, k);
    assert(s@ =~= byte_field_name(name@, k as nat));
    s
}

fn push_string_lines(out: &mut String, name: &str, offset: u32, length: u32)
    ensures
        final(out)@ == old(out)@ + string_byte_lines(name@, offset as nat, length as nat)
            + string_helper_lines(name@, length as nat),
{
    let ghost start = out@;
    let mut k: u64 = 0;
    while k < length as u64
        invariant
            k <= length,
            out@ == start + string_byte_lines(name@, offset as nat, k as nat),
        decreases length - k,
    {
        k = k + 1;
        let field = byte_field_name_string(name, k);
        let comment = byte_comment_string(offset as u64 + k - 1);
        let ghost before = out@;
        push_property_line(out, "byte", field.as_str(), comment.as_str());
        assert(out@ =~= start + string_byte_lines(name@, offset as nat, k as nat));
    }
    let ghost after_bytes = out@;
    let mut list = String::new();
    let mut j: u64 = 0;
    while j < length as u64
        invariant
            j <= length,
            list@ == byte_field_list(name@, j as nat),
        decreases length - j,
    {
        j = j + 1;
        if j > 1 {
            push_str(&mut list, ", ");
        }
        let field = byte_field_name_string(name, j);
        push_str(&mut list, field.as_str());
        assert(list@ =~= byte_field_list(name@, j as nat));
    }
    push_str(out, "    public string ");
    push_str(out, name);
    push_str(out, " =>\n");
    push_str(out, "        System.Text.Encoding.ASCII.GetString(new byte[] { ");
    push_str(out, list.as_str());
    push_str(out, " }).TrimEnd('\\0');\n");
    assert(out@ =~= after_bytes + string_helper_lines(name@, length as nat));
}

fn push_definition(out: &mut String, d: &VarDef)
    ensures
        final(out)@ == old(out)@ + definition_text(*d),
{
    let ghost start = out@;
    match d.var_type {
        VarType::Bool => {
            let mut comment = byte_comment_string(d.byte_offset as u64);
            push_str(&mut comment, ", Bit ");
            push_decimal(&mut comment, d.bit_offset as u64);
            push_property_line(out, "bool", d.name.as_str(), comment.as_str());
        },
        VarType::String { length } => {
            push_string_lines(out, d.name.as_str(), d.byte_offset, length);
            assert(out@ =~= start + definition_text(*d));
        },
        _ => {
            let ty = match d.var_type {
                VarType::Byte => "byte",
                VarType::Word => "ushort",
                VarType::Int => "short",
                VarType::DWord => "uint",
                VarType::DInt => "int",
                _ => "float",
            };
            let comment = byte_comment_string(d.byte_offset as u64);
            push_property_line(out, ty, d.name.as_str(), comment.as_str());
        },
    }
}

/// Generate the C# class of data block `db_number` for the variables
/// `var_defs`; `generated` is the time stamp written in the header.
pub fn export_csharp(db_number: u32, generated: &str, var_defs: &[VarDef]) -> (r: String)
    ensures
        r@ == csharp_class_text(db_number, generated@, var_defs@),
{
    let mut out = String::from_str("// Auto-generated by Siemens PLC Monitor\n");
    push_str(&mut out, "// DB: ");
    push_decimal(&mut out, db_number as u64);
    push_str(&mut out, " | Generated: ");
    push_str(&mut out, generated);
    push_str(&mut out, "\n");
    push_str(&mut out, "// Compatible with snap7dotnet ReadClass<T>\n\n");
    push_str(&mut out, "public class DB");
    push_decimal(&mut out, db_number as u64);
    push_str(&mut out, " {\n");
    let ghost head = out@;
    let mut i: usize = 0;
    while i < var_defs.len()
        invariant
            i <= var_defs@.len(),
            out@ == head + definitions_text(var_defs@.take(i as int)),
        decreases var_defs@.len() - i,
    {
        push_definition(&mut out, &var_defs[i]);
        assert(var_defs@.take(i + 1).drop_last() =~= var_defs@.take(i as int));
        assert(out@ =~= head + definitions_text(var_defs@.take(i + 1)));
        i = i + 1;
    }
    assert(var_defs@.take(var_defs@.len() as int) =~= var_defs@);
    push_str(&mut out, "}\n");
    assert(out@ =~= csharp_class_text(db_number, generated@, var_defs@));
    out
}

/// Whether `y` is a leap year of the Gregorian calendar.
pub open spec fn is_leap(y: int) -> bool {
    (y % 4 == 0 && y % 100 != 0) || y % 400 == 0
}

/// Number of days of year `y`.
pub open spec fn year_days(y: int) -> int {
    if is_leap(y) { 366 } else { 365 }
}

/// Days from 1970-01-01 to the first day of year `y`.
pub open spec fn days_before_year(y: int) -> int
    decreases y - 1970,
{
    if y <= 1970 {
        0
    } else {
        days_before_year(y - 1) + year_days(y - 1)
    }
}

/// Number of days of month `m` (1 to 12) of year `y`.
pub open spec fn month_days(y: int, m: int) -> int {
    if m == 2 {
        if is_leap(y) { 29 } else { 28 }
    } else if m == 4 || m == 6 || m == 9 || m == 11 {
        30
    } else {
        31
    }
}

/// Days from the first of January of year `y` to the first of month `m`.
pub open spec fn days_before_month(y: int, m: int) -> int
    decreases m,
{
    if m <= 1 {
        0
    } else {
        days_before_month(y, m - 1) + month_days(y, m - 1)
    }
}

/// Day `d` (counted from 0 at 1970-01-01) is day `day` of month `m` of year `y`.
pub open spec fn is_date_of_day(d: int, y: int, m: int, day: int) -> bool {
    &&& y >= 1970
    &&& 1 <= m <= 12
    &&& 1 <= day <= month_days(y, m)
    &&& d == days_before_year(y) + days_before_month(y, m) + day - 1
}

/// A number below 100 as two decimal digits.
pub open spec fn two_digits(n: int) -> Seq<char> {
    seq![digit_char((n / 10) as nat), digit_char((n % 10) as nat)]
}

/// `YYYY-MM-DD HH:MM:SS`.
pub open spec fn timestamp_text(y: int, m: int, day: int, h: int, mi: int, s: int) -> Seq<char> {
    decimal_text(y as nat) + "-"@ + two_digits(m) + "-"@ + two_digits(day) + " "@ + two_digits(h)
        + ":"@ + two_digits(mi) + ":"@ + two_digits(s)
}

/// The UTC date and time of `secs` seconds after 1970-01-01 00:00:00, as
/// written in the header of the C# file.
pub open spec fn utc_text(secs: int, text: Seq<char>) -> bool {
    exists|y: int, m: int, day: int|
        #[trigger] is_date_of_day(secs / 86400, y, m, day) && text == timestamp_text(
            y,
            m,
            day,
            (secs % 86400) / 3600,
            (secs % 3600) / 60,
            secs % 60,
        )
}

fn push_two_digits(out: &mut String, n: u64)
    requires
        n < 100,
    ensures
        final(out)@ == old(out)@ + two_digits(n as int),
{
    out.push((48u8 + (n / 10) as u8) as char);
    out.push((48u8 + (n % 10) as u8) as char);
    assert(final(out)@ =~= old(out)@ + two_digits(n as int));
}

proof fn lemma_december(y: int)
    ensures
        days_before_month(y, 12) + month_days(y, 12) == year_days(y),
{
    reveal_with_fuel(days_before_month, 13);
}

/// `YYYY-MM-DD HH:MM:SS` for `secs` seconds after the Unix epoch (UTC).
pub fn format_utc_timestamp(secs: u64) -> (r: String)
    ensures
        utc_text(secs as int, r@),
{
    let day_count = secs / 86400;
    let mut rem = day_count;
    let mut y: u64 = 1970;
    loop
        invariant
            1970 <= y,
            y - 1970 <= day_count - rem,
            rem <= day_count,
            rem + days_before_year(y as int) == day_count,
            day_count == secs / 86400,
        ensures
            1970 <= y,
            rem < year_days(y as int),
            rem + days_before_year(y as int) == day_count,
        decreases rem,
    {
        let len: u64 = if (y % 4 == 0 && y % 100 != 0) || y % 400 == 0 { 366 } else { 365 };
        assert(len == year_days(y as int));
        if rem < len {
            break;
        }
        assert(y + 1 <= u64::MAX);
        rem = rem - len;
        y = y + 1;
    }
    let ghost in_year = rem;
    let leap = (y % 4 == 0 && y % 100 != 0) || y % 400 == 0;
    assert(leap == is_leap(y as int));
    let mut m: u64 = 1;
    proof {
        lemma_december(y as int);
    }
    loop
        invariant
            1 <= m <= 12,
            leap == is_leap(y as int),
            rem + days_before_month(y as int, m as int) == in_year,
            in_year < year_days(y as int),
            days_before_month(y as int, 12) + month_days(y as int, 12) == year_days(y as int),
        ensures
            1 <= m <= 12,
            rem < month_days(y as int, m as int),
            rem + days_before_month(y as int, m as int) == in_year,
        decreases 12 - m,
    {
        let len: u64 = if m == 2 {
            if leap { 29 } else { 28 }
        } else if m == 4 || m == 6 || m == 9 || m == 11 {
            30
        } else {
            31
        };
        assert(len == month_days(y as int, m as int));
        if rem < len {
            break;
        }
        rem = rem - len;
        m = m + 1;
    }
    let day = rem + 1;
    let tod = secs % 86400;
    let mut out = String::new();
    push_decimal(&mut out, y);
    push_str(&mut out, "-");
    push_two_digits(&mut out, m);
    push_str(&mut out, "-");
    push_two_digits(&mut out, day);
    push_str(&mut out, " ");
    push_two_digits(&mut out, tod / 3600);
    push_str(&mut out, ":");
    push_two_digits(&mut out, (secs % 3600) / 60);
    push_str(&mut out, ":");
    push_two_digits(&mut out, secs % 60);
    proof {
        assert((secs as int % 86400) / 3600 == tod / 3600);
        assert(is_date_of_day(secs as int / 86400, y as int, m as int, day as int));
        assert(out@ =~= timestamp_text(
            y as int,
            m as int,
            day as int,
            (secs as int % 86400) / 3600,
            (secs as int % 3600) / 60,
            secs as int % 60,
        ));
    }
    out
}

proof fn lemma_days_before_year_grows(a: int, b: int)
    requires
        1970 <= a < b,
    ensures
        days_before_year(a) + year_days(a) <= days_before_year(b),
    decreases b - a,
{
    if b > a + 1 {
        lemma_days_before_year_grows(a, b - 1);
    }
}

proof fn lemma_days_before_month_grows(y: int, a: int, b: int)
    requires
        1 <= a < b,
    ensures
        days_before_month(y, a) + month_days(y, a) <= days_before_month(y, b),
    decreases b - a,
{
    if b > a + 1 {
        lemma_days_before_month_grows(y, a, b - 1);
    }
}

proof fn lemma_within_year(y: int, m: int, day: int)
    requires
        1 <= m <= 12,
        1 <= day <= month_days(y, m),
    ensures
        0 <= days_before_month(y, m) + day - 1 < year_days(y),
{
    lemma_december(y);
    if m < 12 {
        lemma_days_before_month_grows(y, m, 12);
    }
    assert(days_before_month(y, m) >= 0) by {
        if m > 1 {
            lemma_days_before_month_grows(y, 1, m);
        }
    }
}

/// A day has one date: the year, month and day that `format_utc_timestamp`
/// writes are determined by the number of days since 1970-01-01.
pub proof fn law_one_date_per_day(d: int, y1: int, m1: int, day1: int, y2: int, m2: int, day2: int)
    requires
        is_date_of_day(d, y1, m1, day1),
        is_date_of_day(d, y2, m2, day2),
    ensures
        y1 == y2 && m1 == m2 && day1 == day2,
{
    lemma_within_year(y1, m1, day1);
    lemma_within_year(y2, m2, day2);
    if y1 < y2 {
        lemma_days_before_year_grows(y1, y2);
    } else if y2 < y1 {
        lemma_days_before_year_grows(y2, y1);
    }
    assert(y1 == y2);
    if m1 < m2 {
        lemma_days_before_month_grows(y1, m1, m2);
    } else if m2 < m1 {
        lemma_days_before_month_grows(y1, m2, m1);
    }
}

/// The byte properties of a String have pairwise different names: byte `k`
/// and byte `j` of the same variable never share a name.
pub proof fn law_byte_field_names_distinct(name: Seq<char>, k: nat, j: nat)
    requires
        k != j,
    ensures
        byte_field_name(name, k) != byte_field_name(name, j),
{
    let p = name + "_"@;
    law_decimal_text_injective(k, j);
    if byte_field_name(name, k) == byte_field_name(name, j) {
        let a = byte_field_name(name, k);
        assert(a.subrange(p.len() as int, a.len() as int) =~= decimal_text(k));
        assert(a.subrange(p.len() as int, a.len() as int) =~= decimal_text(j));
    }
}

/// The name of byte `k` is the variable's name, `_`, and then the full
/// decimal number `k`: what follows the name and the underscore reads back
/// as `k`.
pub proof fn law_byte_field_name_ends_with_its_number(name: Seq<char>, k: nat)
    ensures
        byte_field_name(name, k).subrange(0, name.len() as int) == name,
        byte_field_name(name, k)[name.len() as int] == '_',
        parse_unsigned_spec(
            byte_field_name(name, k).subrange(name.len() as int + 1, byte_field_name(name, k).len() as int),
            k,
        ) == Some(k),
{
    reveal_strlit("_");
    let a = byte_field_name(name, k);
    assert(a.subrange(0, name.len() as int) =~= name);
    assert(a.subrange(name.len() as int + 1, a.len() as int) =~= decimal_text(k));
    law_decimal_round_trip(k, k);
}

/// The months follow the Gregorian calendar: the days before each month
/// are 0, 31, 59, 90, 120, 151, 181, 212, 243, 273, 304, 334, one more after
/// February in a leap year, and the year ends after December's 31 days.
pub proof fn law_gregorian_month_table(y: int, m: int)
    requires
        1 <= m <= 12,
    ensures
        days_before_month(y, m) == seq![0int, 31, 59, 90, 120, 151, 181, 212, 243, 273, 304, 334][m
            - 1] + if is_leap(y) && m > 2 {
            1int
        } else {
            0
        },
        days_before_month(y, 12) + 31 == year_days(y),
{
    reveal_with_fuel(days_before_month, 13);
}

/// Leap years are those divisible by 4, except centuries not divisible by
/// 400: 366 days for them, 365 for the others.
pub proof fn law_gregorian_year_length(y: int)
    ensures
        year_days(y) == if y % 400 == 0 || (y % 4 == 0 && y % 100 != 0) {
            366int
        } else {
            365
        },
{
}

} // verus!
