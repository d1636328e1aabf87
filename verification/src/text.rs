//! Verified building blocks for the text that the monitor shows: decimal and
//! upper-case hexadecimal renderings of integers, and comparison of strings.

use vstd::prelude::*;
use vstd::string::{StrSliceExecFns, StringExecFns};

verus! {

/// `String::push` appends one character at the end of the string.
pub assume_specification[ std::string::String::push ](s: &mut std::string::String, ch: char)
    ensures
        final(s)@ == old(s)@.push(ch),
;

/// The character of a decimal digit.
pub open spec fn digit_char(d: nat) -> char {
    ('0' as int + d) as char
}

/// The character of a hexadecimal digit, upper case for 10 to 15.
pub open spec fn hex_char(d: nat) -> char {
    if d < 10 {
        digit_char(d)
    } else {
        ('A' as int + d - 10) as char
    }
}

/// Decimal rendering of a natural number, without leading zeros.
pub open spec fn decimal_text(n: nat) -> Seq<char>
    decreases n,
{
    if n < 10 {
        seq![digit_char(n)]
    } else {
        decimal_text(n / 10).push(digit_char(n % 10))
    }
}

/// Decimal rendering of an integer, with a leading `-` when it is negative.
pub open spec fn signed_decimal_text(v: int) -> Seq<char> {
    if v < 0 {
        seq!['-'] + decimal_text((-v) as nat)
    } else {
        decimal_text(v as nat)
    }
}

/// The lowest `count` hexadecimal digits of `n`, most significant first.
pub open spec fn hex_text(n: nat, count: nat) -> Seq<char>
    decreases count,
{
    if count == 0 {
        Seq::empty()
    } else {
        hex_text(n / 16, (count - 1) as nat).push(hex_char(n % 16))
    }
}

/// Appends the decimal rendering of `n` to `out`.
pub fn push_decimal(out: &mut String, n: u64)
    ensures
        final(out)@ == old(out)@ + decimal_text(n as nat),
    decreases n,
{
    if n >= 10 {
        push_decimal(out, n / 10);
    }
    let d: u8 = (n % 10) as u8;
    out.push((48u8 + d) as char);
}

/// Appends the decimal rendering of `v`, with a `-` when it is negative.
pub fn push_signed(out: &mut String, v: i32)
    ensures
        final(out)@ == old(out)@ + signed_decimal_text(v as int),
{
    if v < 0 {
        out.push('-');
        let magnitude: u64 = (0i64 - v as i64) as u64;
        push_decimal(out, magnitude);
        assert(seq!['-'] + decimal_text((-v) as nat) == seq!['-'].add(decimal_text((-v) as nat)));
        assert(old(out)@.push('-') + decimal_text(magnitude as nat) =~= old(out)@ + (seq!['-']
            + decimal_text((-v) as nat)));
    } else {
        push_decimal(out, v as u64);
    }
}

/// Appends the lowest `count` hexadecimal digits of `n`, upper case.
pub fn push_hex(out: &mut String, n: u64, count: usize)
    ensures
        final(out)@ == old(out)@ + hex_text(n as nat, count as nat),
    decreases count,
{
    if count == 0 {
        assert(old(out)@ + Seq::<char>::empty() =~= old(out)@);
        return;
    }
    push_hex(out, n / 16, count - 1);
    let d: u8 = (n % 16) as u8;
    if d < 10 {
        out.push((48u8 + d) as char);
    } else {
        out.push((55u8 + d) as char);
    }
    assert(hex_text(n as nat, count as nat) == hex_text((n / 16) as nat, (count - 1) as nat).push(
        hex_char((n % 16) as nat),
    ));
    assert(old(out)@ + hex_text((n / 16) as nat, (count - 1) as nat).push(hex_char((n % 16) as nat))
        =~= (old(out)@ + hex_text((n / 16) as nat, (count - 1) as nat)).push(
        hex_char((n % 16) as nat),
    ));
}

/// Appends `s` to `out`.
pub fn push_str(out: &mut String, s: &str)
    ensures
        final(out)@ == old(out)@ + s@,
{
    out.append(s);
}

/// Whether two strings hold the same characters.
pub fn str_eq(a: &str, b: &str) -> (r: bool)
    ensures
        r == (a@ == b@),
{
    let n = a.unicode_len();
    if n != b.unicode_len() {
        return false;
    }
    let mut i: usize = 0;
    while i < n
        invariant
            n == a@.len(),
            n == b@.len(),
            i <= n,
            forall|j: int| 0 <= j < i ==> a@[j] == b@[j],
        decreases n - i,
    {
        if a.get_char(i) != b.get_char(i) {
            return false;
        }
        i = i + 1;
    }
    assert(a@ =~= b@);
    true
}

/// Whether `c` is one of the ASCII digits `0` to `9`.
pub open spec fn is_digit(c: char) -> bool {
    '0' as int <= c as int <= '9' as int
}

/// The value of an ASCII digit.
pub open spec fn digit_value(c: char) -> nat {
    (c as int - '0' as int) as nat
}

/// The value of a sequence of decimal digits, most significant first.
pub open spec fn digits_value(s: Seq<char>) -> nat
    decreases s.len(),
{
    if s.len() == 0 {
        0
    } else {
        digits_value(s.drop_last()) * 10 + digit_value(s.last())
    }
}

/// The digits of an unsigned number: all of it, or what follows a leading `+`.
pub open spec fn unsigned_digits(s: Seq<char>) -> Seq<char> {
    if s.len() > 0 && s[0] == '+' {
        s.drop_first()
    } else {
        s
    }
}

/// The number that `s` writes in decimal, as Rust reads an unsigned integer
/// type whose largest value is `max`: an optional `+`, then at least one
/// digit and nothing else, with a value of at most `max`. `None` otherwise.
pub open spec fn parse_unsigned_spec(s: Seq<char>, max: nat) -> Option<nat> {
    let d = unsigned_digits(s);
    if d.len() > 0 && (forall|i: int| 0 <= i < d.len() ==> is_digit(#[trigger] d[i]))
        && digits_value(d) <= max {
        Some(digits_value(d))
    } else {
        None
    }
}

proof fn lemma_digits_value_grows(d: Seq<char>, k: int)
    requires
        0 <= k <= d.len(),
        forall|i: int| 0 <= i < d.len() ==> is_digit(#[trigger] d[i]),
    ensures
        digits_value(d.take(k)) <= digits_value(d),
    decreases d.len() - k,
{
    if k < d.len() {
        let e = d.take(k + 1);
        lemma_digits_value_grows(d, k + 1);
        assert(e.drop_last() =~= d.take(k));
    } else {
        assert(d.take(k) =~= d);
    }
}

/// Reads an unsigned decimal number of at most `max`, as `str::parse` does
/// for an unsigned integer type whose largest value is `max`.
pub fn parse_unsigned(s: &str, max: u64) -> (r: Option<u64>)
    ensures
        r matches Some(v) ==> parse_unsigned_spec(s@, max as nat) == Some(v as nat),
        r is None ==> parse_unsigned_spec(s@, max as nat) is None,
{
    let n = s.unicode_len();
    let mut start: usize = 0;
    if n > 0 && s.get_char(0) == '+' {
        start = 1;
    }
    let ghost d = unsigned_digits(s@);
    assert(d =~= s@.subrange(start as int, n as int));
    if start == n {
        return None;
    }
    let mut acc: u64 = 0;
    let mut i: usize = start;
    while i < n
        invariant
            start <= i <= n,
            n == s@.len(),
            d == s@.subrange(start as int, n as int),
            d == unsigned_digits(s@),
            acc == digits_value(d.take(i - start)),
            acc <= max,
            forall|j: int| 0 <= j < i - start ==> is_digit(#[trigger] d[j]),
        decreases n - i,
    {
        let c = s.get_char(i);
        assert(c == d[i - start]);
        if c < '0' || c > '9' {
            assert(!is_digit(d[i - start]));
            assert(!(forall|j: int| 0 <= j < d.len() ==> is_digit(#[trigger] d[j])));
            assert(parse_unsigned_spec(s@, max as nat) is None);
            return None;
        }
        let dv: u64 = (c as u32 - 48) as u64;
        assert(d.take(i - start + 1).drop_last() =~= d.take(i - start));
        if dv > max || acc > (max - dv) / 10 {
            proof {
                assert(digits_value(d.take(i - start + 1)) == acc * 10 + dv);
                assert(acc * 10 + dv > max) by (nonlinear_arith)
                    requires
                        dv > max || acc > (max - dv) / 10,
                        acc >= 0,
                ;
                if forall|j: int| 0 <= j < d.len() ==> is_digit(#[trigger] d[j]) {
                    lemma_digits_value_grows(d, i - start + 1);
                    assert(digits_value(d) > max);
                }
                assert(parse_unsigned_spec(s@, max as nat) is None);
            }
            return None;
        }
        assert(acc * 10 + dv <= max) by (nonlinear_arith)
            requires
                acc <= (max - dv) / 10,
                dv <= max,
        ;
        acc = acc * 10 + dv;
        i = i + 1;
    }
    assert(d.take(n - start) =~= d);
    Some(acc)
}

proof fn lemma_decimal_text_digits(n: nat)
    ensures
        decimal_text(n).len() > 0,
        forall|i: int| 0 <= i < decimal_text(n).len() ==> is_digit(#[trigger] decimal_text(n)[i]),
        digits_value(decimal_text(n)) == n,
    decreases n,
{
    assert(digit_value(digit_char(n % 10)) == n % 10);
    if n >= 10 {
        lemma_decimal_text_digits(n / 10);
        let t = decimal_text(n);
        assert(t.drop_last() =~= decimal_text(n / 10));
        assert forall|i: int| 0 <= i < t.len() implies is_digit(#[trigger] t[i]) by {
            if i < t.len() - 1 {
                assert(t[i] == decimal_text(n / 10)[i]);
            }
        }
        assert(digits_value(t) == digits_value(decimal_text(n / 10)) * 10 + digit_value(
            digit_char(n % 10),
        ));
    } else {
        let t = decimal_text(n);
        assert(t.drop_last() =~= Seq::<char>::empty());
        assert(digits_value(t.drop_last()) == 0);
    }
}

/// Reading back the decimal text of a number gives the number: what
/// `push_decimal` writes, `parse_unsigned` reads, for every value that the
/// type of the field can hold.
pub proof fn law_decimal_round_trip(n: nat, max: nat)
    requires
        n <= max,
    ensures
        parse_unsigned_spec(decimal_text(n), max) == Some(n),
{
    lemma_decimal_text_digits(n);
    let t = decimal_text(n);
    assert(is_digit(t[0]));
    assert(unsigned_digits(t) == t);
}

/// Different numbers have different decimal texts.
pub proof fn law_decimal_text_injective(a: nat, b: nat)
    requires
        a != b,
    ensures
        decimal_text(a) != decimal_text(b),
{
    lemma_decimal_text_digits(a);
    lemma_decimal_text_digits(b);
}

/// `16^count`.
pub open spec fn pow16(count: nat) -> nat
    decreases count,
{
    if count == 0 {
        1
    } else {
        16 * pow16((count - 1) as nat)
    }
}

proof fn lemma_pow16_positive(count: nat)
    ensures
        pow16(count) > 0,
    decreases count,
{
    if count > 0 {
        lemma_pow16_positive((count - 1) as nat);
    }
}

/// The value of a digit among `0`-`9` and `A`-`F`.
pub open spec fn hex_digit_value(c: char) -> int {
    if c as int <= '9' as int {
        c as int - '0' as int
    } else {
        c as int - 'A' as int + 10
    }
}

/// The value of a sequence of hexadecimal digits, most significant first.
pub open spec fn hex_digits_value(s: Seq<char>) -> int
    decreases s.len(),
{
    if s.len() == 0 {
        0
    } else {
        hex_digits_value(s.drop_last()) * 16 + hex_digit_value(s.last())
    }
}

/// `hex_text(n, count)` is `count` characters among `0`-`9` and `A`-`F`
/// whose base-16 value is `n` modulo `16^count`: the low digits of `n`,
/// most significant first, zero-padded.
pub proof fn law_hex_text_is_base_16(n: nat, count: nat)
    ensures
        hex_text(n, count).len() == count,
        forall|i: int|
            0 <= i < count ==> ('0' <= #[trigger] hex_text(n, count)[i] <= '9') || ('A' <= hex_text(
                n,
                count,
            )[i] <= 'F'),
        hex_digits_value(hex_text(n, count)) == n % pow16(count),
    decreases count,
{
    if count > 0 {
        let c1 = (count - 1) as nat;
        law_hex_text_is_base_16(n / 16, c1);
        let t = hex_text(n, count);
        assert(t.drop_last() =~= hex_text(n / 16, c1));
        assert forall|i: int| 0 <= i < count implies ('0' <= #[trigger] t[i] <= '9') || ('A' <= t[i]
            <= 'F') by {
            if i < count - 1 {
                assert(t[i] == hex_text(n / 16, c1)[i]);
            }
        }
        assert(hex_digit_value(hex_char(n % 16)) == n % 16);
        lemma_pow16_positive(c1);
        vstd::arithmetic::div_mod::lemma_breakdown(n as int, 16, pow16(c1) as int);
        assert(pow16(count) == 16 * pow16(c1));
    }
}

/// The signed text of `v` is `-` followed by the digits of `-v` when `v` is
/// negative, and the digits of `v` otherwise; the digits read back.
pub proof fn law_signed_decimal_reads_back(v: int)
    ensures
        v < 0 ==> signed_decimal_text(v)[0] == '-' && parse_unsigned_spec(
            signed_decimal_text(v).drop_first(),
            (-v) as nat,
        ) == Some((-v) as nat),
        v >= 0 ==> parse_unsigned_spec(signed_decimal_text(v), v as nat) == Some(v as nat),
{
    if v < 0 {
        law_decimal_round_trip((-v) as nat, (-v) as nat);
        assert(signed_decimal_text(v).drop_first() =~= decimal_text((-v) as nat));
    } else {
        law_decimal_round_trip(v as nat, v as nat);
    }
}

} // verus!
