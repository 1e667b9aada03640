use vstd::prelude::*;

verus! {

/// The character of a decimal digit.
pub open spec fn digit_char(d: nat) -> char {
    if d == 0 { '0' }
    else if d == 1 { '1' }
    else if d == 2 { '2' }
    else if d == 3 { '3' }
    else if d == 4 { '4' }
    else if d == 5 { '5' }
    else if d == 6 { '6' }
    else if d == 7 { '7' }
    else if d == 8 { '8' }
    else { '9' }
}

/// Decimal notation of a natural number, without leading zeros.
pub open spec fn decimal(n: nat) -> Seq<char>
    decreases n,
{
    if n < 10 {
        seq![digit_char(n)]
    } else {
        decimal(n / 10).push(digit_char(n % 10))
    }
}

fn digit_str(d: u64) -> (r: &'static str)
    requires
        d < 10,
    ensures
        r@ == seq![digit_char(d as nat)],
{
    proof {
        reveal_strlit("0");
        reveal_strlit("1");
        reveal_strlit("2");
        reveal_strlit("3");
        reveal_strlit("4");
        reveal_strlit("5");
        reveal_strlit("6");
        reveal_strlit("7");
        reveal_strlit("8");
        reveal_strlit("9");
    }
    if d == 0 { "0" }
    else if d == 1 { "1" }
    else if d == 2 { "2" }
    else if d == 3 { "3" }
    else if d == 4 { "4" }
    else if d == 5 { "5" }
    else if d == 6 { "6" }
    else if d == 7 { "7" }
    else if d == 8 { "8" }
    else { "9" }
}

/// Appends the decimal notation of `n` to `out`.
pub fn push_decimal(out: &mut String, n: u64)
    ensures
        final(out)@ == old(out)@ + decimal(n as nat),
    decreases n,
{
    if n >= 10 {
        push_decimal(out, n / 10);
    }
    out.append(digit_str(n % 10));
    proof {
        if n >= 10 {
            assert(decimal(n as nat) == decimal((n / 10) as nat).push(digit_char((n % 10) as nat)));
        }
    }
    assert(out@ =~= old(out)@ + decimal(n as nat));
}


pub open spec fn is_digit(c: char) -> bool {
    '0' <= c && c <= '9'
}

pub open spec fn digit_value(c: char) -> nat {
    (c as u32 - '0' as u32) as nat
}

/// The number that a string of decimal digits denotes (leading zeros allowed).
pub open spec fn digits_value(s: Seq<char>) -> nat
    decreases s.len(),
{
    if s.len() == 0 {
        0
    } else {
        digits_value(s.drop_last()) * 10 + digit_value(s.last())
    }
}

pub open spec fn all_digits(s: Seq<char>) -> bool {
    forall|i: int| 0 <= i < s.len() ==> is_digit(#[trigger] s[i])
}

/// The text after an optional leading `+`.
pub open spec fn unsigned_part(s: Seq<char>) -> Seq<char> {
    if s.len() > 0 && s[0] == '+' { s.drop_first() } else { s }
}

/// What parsing text as a `u32` gives: an optional `+`, then one or more
/// decimal digits, denoting a value that fits in 32 bits.
pub open spec fn parse_u32_spec(s: Seq<char>) -> Option<u32> {
    let digits = unsigned_part(s);
    if digits.len() > 0 && all_digits(digits) && digits_value(digits) <= u32::MAX {
        Some(digits_value(digits) as u32)
    } else {
        None
    }
}

/// A longer run of digits never denotes a smaller number.
pub proof fn lemma_digits_value_grows(s: Seq<char>, i: int)
    requires
        0 <= i <= s.len(),
        forall|k: int| 0 <= k < s.len() ==> is_digit(#[trigger] s[k]),
    ensures
        digits_value(s.subrange(0, i)) <= digits_value(s),
    decreases s.len() - i,
{
    if i < s.len() {
        let t = s.subrange(0, i + 1);
        assert(t.drop_last() =~= s.subrange(0, i));
        lemma_digits_value_grows(s, i + 1);
    } else {
        assert(s.subrange(0, i) =~= s);
    }
}

/// Parses a decimal `u32` as `str::parse::<u32>` does.
pub fn parse_u32(s: &str) -> (r: Option<u32>)
    ensures
        r == parse_u32_spec(s@),
{
    let n = s.unicode_len();
    let start: usize = if n > 0 && s.get_char(0) == '+' { 1 } else { 0 };
    let ghost digits = unsigned_part(s@);
    assert(digits =~= s@.subrange(start as int, n as int));
    if start >= n {
        return None;
    }
    let mut acc: u64 = 0;
    let mut i: usize = start;
    while i < n
        invariant
            start <= i <= n,
            n == s@.len(),
            digits == s@.subrange(start as int, n as int),
            digits == unsigned_part(s@),
            acc == digits_value(digits.subrange(0, i - start)),
            acc <= u32::MAX,
            forall|k: int| 0 <= k < i - start ==> is_digit(#[trigger] digits[k]),
        decreases n - i,
    {
        let c = s.get_char(i);
        assert(c == digits[i - start]);
        if !('0' <= c && c <= '9') {
            assert(!is_digit(digits[i - start]));
            assert(!all_digits(digits));
            return None;
        }
        let d = (c as u32 - '0' as u32) as u64;
        let ghost prefix = digits.subrange(0, i - start + 1);
        assert(prefix.drop_last() =~= digits.subrange(0, i - start));
        assert(digits_value(prefix) == acc * 10 + d);
        if acc * 10 + d > u32::MAX as u64 {
            proof {
                assert forall|k: int| 0 <= k < prefix.len() implies is_digit(#[trigger] prefix[k]) by {
                    assert(prefix[k] == digits[k]);
                }
                if all_digits(digits) {
                    lemma_digits_value_grows(digits, i - start + 1);
                }
            }
            return None;
        }
        acc = acc * 10 + d;
        i += 1;
    }
    assert(digits.subrange(0, i - start) =~= digits);
    assert(all_digits(digits));
    Some(acc as u32)
}


/// Appends the unit `n` followed by `suffix` when `n` is nonzero, separated
/// from what is already there by one space.
pub open spec fn append_unit(acc: Seq<char>, n: nat, suffix: char) -> Seq<char> {
    if n == 0 {
        acc
    } else if acc.len() == 0 {
        decimal(n).push(suffix)
    } else {
        acc.push(' ') + decimal(n).push(suffix)
    }
}

/// A duration in seconds as days, hours and minutes; seconds are shown only
/// when the duration is under an hour.
pub open spec fn readable_duration(seconds: nat) -> Seq<char> {
    if seconds == 0 {
        seq!['0', 's']
    } else {
        let days = seconds / 86400;
        let hours = seconds % 86400 / 3600;
        let minutes = seconds % 3600 / 60;
        let secs = seconds % 60;
        let shown_secs = if days == 0 && hours == 0 { secs } else { 0 };
        append_unit(
            append_unit(append_unit(append_unit(Seq::empty(), days, 'd'), hours, 'h'), minutes, 'm'),
            shown_secs,
            's',
        )
    }
}

fn suffix_str(suffix: char) -> (r: &'static str)
    requires
        suffix == 'd' || suffix == 'h' || suffix == 'm' || suffix == 's',
    ensures
        r@ == seq![suffix],
{
    proof {
        reveal_strlit("d");
        reveal_strlit("h");
        reveal_strlit("m");
        reveal_strlit("s");
    }
    if suffix == 'd' { "d" }
    else if suffix == 'h' { "h" }
    else if suffix == 'm' { "m" }
    else { "s" }
}

fn push_unit(out: &mut String, n: u64, suffix: char)
    requires
        suffix == 'd' || suffix == 'h' || suffix == 'm' || suffix == 's',
    ensures
        final(out)@ == append_unit(old(out)@, n as nat, suffix),
{
    if n == 0 {
        return;
    }
    let empty = out.as_str().is_empty();
    let ghost before = out@;
    if !empty {
        proof { reveal_strlit(" "); }
        out.append(" ");
    }
    push_decimal(out, n);
    out.append(suffix_str(suffix));
    if empty {
        assert(out@ =~= decimal(n as nat).push(suffix));
    } else {
        assert(out@ =~= before.push(' ') + decimal(n as nat).push(suffix));
    }
}

/// Renders an uptime in seconds for display (`"0s"`, `"45s"`, `"2m 5s"`,
/// `"1h 1m"`, `"1d 2h"`).
pub fn time_to_readable(seconds: u64) -> (r: String)
    ensures
        r@ == readable_duration(seconds as nat),
{
    if seconds == 0 {
        proof { reveal_strlit("0s"); }
        return String::from_str("0s");
    }
    let days = seconds / 86400;
    let hours = seconds % 86400 / 3600;
    let minutes = seconds % 3600 / 60;
    let secs = seconds % 60;
    let shown_secs = if days == 0 && hours == 0 { secs } else { 0 };
    let mut out = String::new();
    push_unit(&mut out, days, 'd');
    push_unit(&mut out, hours, 'h');
    push_unit(&mut out, minutes, 'm');
    push_unit(&mut out, shown_secs, 's');
    out
}

/// File name of the log of the record with id `id`.
pub open spec fn log_file_name_spec(id: u32) -> Seq<char> {
    decimal(id as nat) + seq!['.', 'l', 'o', 'g']
}

/// The name of a record's log file: its id followed by `.log`.
pub fn log_file_name(id: u32) -> (r: String)
    ensures
        r@ == log_file_name_spec(id),
{
    let mut out = String::new();
    push_decimal(&mut out, id as u64);
    proof { reveal_strlit(".log"); }
    out.append(".log");
    assert(out@ =~= log_file_name_spec(id));
    out
}

} // verus!
