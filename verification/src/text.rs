//! Decimal and hexadecimal text for the serial console: numbers written out
//! and numbers read from AT command arguments.
use vstd::prelude::*;
use crate::battery::BatteryState;

verus! {

pub open spec fn is_digit(b: u8) -> bool {
    48 <= b <= 57
}

/// The value of a string of decimal digits.
pub open spec fn decimal_value(s: Seq<u8>) -> nat
    decreases s.len(),
{
    if s.len() == 0 {
        0
    } else {
        decimal_value(s.drop_last()) * 10 + (s.last() - 48) as nat
    }
}

/// The decimal digits of `v`, least significant first.
pub open spec fn decimal_rev(v: nat) -> Seq<u8>
    decreases v,
{
    if v < 10 {
        seq![(48 + v) as u8]
    } else {
        seq![(48 + v % 10) as u8] + decimal_rev(v / 10)
    }
}

/// The decimal form of `v`, without leading zeros ("0" for zero).
pub open spec fn decimal(v: nat) -> Seq<u8> {
    decimal_rev(v).reverse()
}

/// The index of the first digit at or after `k`.
pub open spec fn first_digit_from(s: Seq<u8>, k: int) -> Option<int>
    decreases s.len() - k,
{
    if k < 0 || k >= s.len() {
        None
    } else if is_digit(s[k]) {
        Some(k)
    } else {
        first_digit_from(s, k + 1)
    }
}

/// The end of the run of digits that starts at `k`.
pub open spec fn digit_run_end(s: Seq<u8>, k: int) -> int
    decreases s.len() - k,
{
    if k < 0 || k >= s.len() || !is_digit(s[k]) {
        k
    } else {
        digit_run_end(s, k + 1)
    }
}

/// The first run of digits in `s`.
pub open spec fn first_number(s: Seq<u8>) -> Option<nat> {
    match first_digit_from(s, 0) {
        Some(k) => Some(decimal_value(s.subrange(k, digit_run_end(s, k)))),
        None => None,
    }
}

/// An unsigned argument: the first run of digits, when it fits in a `u32`.
pub open spec fn parse_u32_model(s: Seq<u8>) -> Option<u32> {
    match first_number(s) {
        Some(v) => if v <= u32::MAX { Some(v as u32) } else { None },
        None => None,
    }
}

/// A signed argument: the first run of digits, negative when a minus sign
/// comes anywhere before it; none when the digits exceed `i32::MAX` or the
/// value does not fit in an `i8`.
pub open spec fn parse_i8_model(s: Seq<u8>) -> Option<i8> {
    match first_digit_from(s, 0) {
        Some(k) => {
            let v = decimal_value(s.subrange(k, digit_run_end(s, k)));
            let neg = s.take(k).contains(45u8);
            let val: int = if neg { -v } else { v as int };
            if v > i32::MAX || val < -128 || val > 127 { None } else { Some(val as i8) }
        },
        None => None,
    }
}

// ---------------------------------------------------------------------------
// Lemmas
// ---------------------------------------------------------------------------

proof fn lemma_value_push(s: Seq<u8>, d: u8)
    ensures
        decimal_value(s.push(d)) == decimal_value(s) * 10 + (d - 48) as nat,
{
    assert(s.push(d).drop_last() =~= s);
}

/// Extending a run of digits never lowers its value.
proof fn lemma_value_grows(s: Seq<u8>, k: int, i: int, e: int)
    requires
        0 <= k <= i <= e <= s.len(),
        forall|j: int| k <= j < e ==> is_digit(#[trigger] s[j]),
    ensures
        decimal_value(s.subrange(k, i)) <= decimal_value(s.subrange(k, e)),
    decreases e - i,
{
    if i < e {
        lemma_value_grows(s, k, i + 1, e);
        assert(s.subrange(k, i + 1) =~= s.subrange(k, i).push(s[i]));
        lemma_value_push(s.subrange(k, i), s[i]);
    }
}

proof fn lemma_first_digit_none(s: Seq<u8>, k: int)
    requires
        0 <= k,
        forall|j: int| k <= j < s.len() ==> !is_digit(#[trigger] s[j]),
    ensures
        first_digit_from(s, k) is None,
    decreases s.len() - k,
{
    if k < s.len() {
        lemma_first_digit_none(s, k + 1);
    }
}

proof fn lemma_first_digit_is(s: Seq<u8>, k: int, from: int)
    requires
        0 <= from <= k < s.len(),
        is_digit(s[k]),
        forall|j: int| from <= j < k ==> !is_digit(#[trigger] s[j]),
    ensures
        first_digit_from(s, from) == Some(k),
    decreases k - from,
{
    if from < k {
        lemma_first_digit_is(s, k, from + 1);
    }
}

proof fn lemma_run_end(s: Seq<u8>, k: int, i: int)
    requires
        0 <= k <= i <= s.len(),
        forall|j: int| k <= j < i ==> is_digit(#[trigger] s[j]),
        i == s.len() || !is_digit(s[i]),
    ensures
        digit_run_end(s, k) == i,
    decreases i - k,
{
    if k < i {
        lemma_run_end(s, k + 1, i);
    }
}

proof fn lemma_run_end_bounds(s: Seq<u8>, k: int)
    requires
        0 <= k <= s.len(),
    ensures
        k <= digit_run_end(s, k) <= s.len(),
        forall|j: int| k <= j < digit_run_end(s, k) ==> is_digit(#[trigger] s[j]),
    decreases s.len() - k,
{
    if k < s.len() && is_digit(s[k]) {
        lemma_run_end_bounds(s, k + 1);
    }
}

proof fn lemma_run_end_past(s: Seq<u8>, k: int, m: int)
    requires
        0 <= k <= m <= s.len(),
        forall|j: int| k <= j < m ==> is_digit(#[trigger] s[j]),
    ensures
        m <= digit_run_end(s, k) <= s.len(),
        forall|j: int| k <= j < digit_run_end(s, k) ==> is_digit(#[trigger] s[j]),
    decreases s.len() - k,
{
    lemma_run_end_bounds(s, k);
    if k < m {
        lemma_run_end_past(s, k + 1, m);
    }
}

pub open spec fn pow10(k: nat) -> nat
    decreases k,
{
    if k == 0 { 1 } else { 10 * pow10((k - 1) as nat) }
}

proof fn lemma_rev_len(v: nat, k: nat)
    requires
        v < pow10(k),
        k >= 1,
    ensures
        decimal_rev(v).len() <= k,
    decreases k,
{
    if v >= 10 {
        assert(k >= 2) by {
            if k == 1 {
                assert(pow10(1) == 10) by {
                    reveal_with_fuel(pow10, 2);
                }
            }
        }
        assert(v / 10 < pow10((k - 1) as nat));
        lemma_rev_len(v / 10, (k - 1) as nat);
    }
}

proof fn lemma_u32_digits(v: u32)
    ensures
        1 <= decimal_rev(v as nat).len() <= 10,
{
    assert(pow10(10) == 10000000000) by {
        reveal_with_fuel(pow10, 11);
    }
    lemma_rev_len(v as nat, 10);
}


proof fn lemma_reverse_cons(a: u8, t: Seq<u8>)
    ensures
        (seq![a] + t).reverse() == t.reverse().push(a),
{
    assert((seq![a] + t).reverse() =~= t.reverse().push(a));
}

proof fn lemma_decimal_rev_facts(v: nat)
    ensures
        decimal_rev(v).len() >= 1,
        forall|i: int| 0 <= i < decimal_rev(v).len() ==> is_digit(#[trigger] decimal_rev(v)[i]),
        decimal_value(decimal_rev(v).reverse()) == v,
    decreases v,
{
    if v < 10 {
        let s = decimal_rev(v);
        assert(s.reverse() =~= Seq::<u8>::empty().push((48 + v) as u8));
        lemma_value_push(Seq::<u8>::empty(), (48 + v) as u8);
    } else {
        lemma_decimal_rev_facts(v / 10);
        let d = (48 + v % 10) as u8;
        let t = decimal_rev(v / 10);
        lemma_reverse_cons(d, t);
        lemma_value_push(t.reverse(), d);
        assert forall|i: int| 0 <= i < decimal_rev(v).len() implies is_digit(#[trigger] decimal_rev(v)[i]) by {
            if i > 0 {
                assert(decimal_rev(v)[i] == t[i - 1]);
            }
        }
    }
}

/// Law: a number written in decimal reads back as itself.
pub proof fn law_decimal_reads_back(v: u32)
    ensures
        parse_u32_model(decimal(v as nat)) == Some(v),
        1 <= decimal(v as nat).len() <= 10,
        forall|i: int| 0 <= i < decimal(v as nat).len() ==> is_digit(#[trigger] decimal(v as nat)[i]),
{
    let s = decimal(v as nat);
    lemma_decimal_rev_facts(v as nat);
    lemma_u32_digits(v);
    assert forall|i: int| 0 <= i < s.len() implies is_digit(#[trigger] s[i]) by {
        assert(s[i] == decimal_rev(v as nat)[decimal_rev(v as nat).len() - 1 - i]);
    }
    lemma_first_digit_is(s, 0, 0);
    lemma_run_end(s, 0, s.len() as int);
    assert(s.subrange(0, s.len() as int) =~= s);
}

// ---------------------------------------------------------------------------
// Writing numbers
// ---------------------------------------------------------------------------

/// Writes the decimal form of `val` at the front of `buf` and returns its
/// length; the rest of `buf` is untouched.
pub fn write_u32_to_buf(val: u32, buf: &mut [u8]) -> (n: usize)
    requires
        old(buf)@.len() >= decimal(val as nat).len(),
    ensures
        n == decimal(val as nat).len(),
        final(buf)@ == decimal(val as nat) + old(buf)@.skip(n as int),
{
    proof {
        lemma_u32_digits(val);
    }
    let ghost b0 = buf@;
    if val == 0 {
        buf[0] = 48;
        assert(buf@ =~= decimal(0) + b0.skip(1));
        return 1;
    }
    let mut v = val;
    let mut digits = [0u8; 10];
    let mut count: usize = 0;
    while v > 0
        invariant
            count <= 10,
            digits@.len() == 10,
            digits@.take(count as int) + (if v == 0 { Seq::empty() } else { decimal_rev(v as nat) })
                == decimal_rev(val as nat),
            decimal_rev(val as nat).len() <= 10,
            val > 0,
        decreases v,
    {
        assert(count < 10) by {
            assert(decimal_rev(v as nat).len() >= 1);
        }
        let ghost dr = decimal_rev(v as nat);
        digits[count] = 48 + (v % 10) as u8;
        v = v / 10;
        proof {
            if v == 0 {
                assert(dr == seq![(48 + (dr[0] - 48)) as u8]);
            }
            assert(digits@.take(count + 1) =~= digits@.take(count as int).push(digits@[count as int]));
        }
        count = count + 1;
        proof {
            let lhs = digits@.take(count as int) + (if v == 0 { Seq::empty() } else { decimal_rev(v as nat) });
            assert(lhs =~= decimal_rev(val as nat));
        }
    }
    let ghost rev = digits@.take(count as int);
    assert(rev =~= decimal_rev(val as nat));
    for i in 0..count
        invariant
            count <= 10,
            count <= b0.len(),
            rev == digits@.take(count as int),
            buf@.len() == b0.len(),
            forall|j: int| 0 <= j < i ==> buf@[j] == rev[count - 1 - j],
            forall|j: int| count <= j < b0.len() ==> buf@[j] == b0[j],
    {
        buf[i] = digits[count - 1 - i];
    }
    assert(buf@ =~= decimal(val as nat) + b0.skip(count as int));
    count
}

fn push_decimal(val: u32, out: &mut Vec<u8>)
    ensures
        final(out)@ == old(out)@ + decimal(val as nat),
{
    proof {
        lemma_u32_digits(val);
    }
    let mut buf = [0u8; 10];
    let n = write_u32_to_buf(val, &mut buf);
    let ghost o0 = out@;
    for i in 0..n
        invariant
            n == decimal(val as nat).len(),
            n <= 10,
            buf@.take(n as int) == decimal(val as nat),
            out@ == o0 + buf@.take(i as int),
    {
        out.push(buf[i]);
        assert(buf@.take(i + 1) =~= buf@.take(i as int).push(buf@[i as int]));
    }
    assert(buf@.take(n as int) =~= decimal(val as nat));
}

/// "Battery: ".
pub open spec fn battery_prefix() -> Seq<u8> {
    seq![66u8, 97u8, 116u8, 116u8, 101u8, 114u8, 121u8, 58u8, 32u8]
}

/// The battery line of the status report:
/// "Battery: <millivolts>mV (<percent>%)".
pub open spec fn battery_text(voltage_mv: u32, percentage: u8) -> Seq<u8> {
    battery_prefix() + decimal(voltage_mv as nat) + seq![109u8, 86u8, 32u8, 40u8]
        + decimal(percentage as nat) + seq![37u8, 41u8]
}

fn push_bytes(bytes: &[u8], out: &mut Vec<u8>)
    ensures
        final(out)@ == old(out)@ + bytes@,
{
    let ghost o0 = out@;
    for i in 0..bytes.len()
        invariant
            out@ == o0 + bytes@.take(i as int),
    {
        out.push(bytes[i]);
        assert(bytes@.take(i + 1) =~= bytes@.take(i as int).push(bytes@[i as int]));
    }
    assert(bytes@.take(bytes@.len() as int) =~= bytes@);
}

/// The battery line of the status report.
pub fn format_battery(battery: &BatteryState) -> (s: Vec<u8>)
    ensures
        s@ == battery_text(battery.voltage_mv, battery.percentage),
{
    let mut out: Vec<u8> = Vec::new();
    let prefix: [u8; 9] = [0x42, 0x61, 0x74, 0x74, 0x65, 0x72, 0x79, 0x3a, 0x20];
    assert(prefix@ =~= battery_prefix());
    push_bytes(&prefix, &mut out);
    push_decimal(battery.voltage_mv, &mut out);
    let unit: [u8; 4] = [0x6d, 0x56, 0x20, 0x28];
    push_bytes(&unit, &mut out);
    push_decimal(battery.percentage as u32, &mut out);
    let end: [u8; 2] = [0x25, 0x29];
    push_bytes(&end, &mut out);
    assert(out@ =~= battery_text(battery.voltage_mv, battery.percentage));
    out
}

/// The upper-case hex digit of a nibble.
pub open spec fn hex_upper(n: int) -> u8 {
    if n < 10 { (48 + n) as u8 } else { (55 + n) as u8 }
}

fn hex_digit_upper(n: u8) -> (c: u8)
    requires
        n < 16,
    ensures
        c == hex_upper(n as int),
{
    if n < 10 { 48 + n } else { 55 + n }
}

/// A byte as two upper-case hex digits.
pub fn format_hex8(val: u8) -> (s: [u8; 2])
    ensures
        s@ == seq![hex_upper(val as int / 16), hex_upper(val as int % 16)],
{
    assert(val >> 4u8 == val / 16 && val & 0xFu8 == val % 16) by (bit_vector);
    let s = [hex_digit_upper(val >> 4), hex_digit_upper(val & 0xF)];
    assert(s@ =~= seq![hex_upper(val as int / 16), hex_upper(val as int % 16)]);
    s
}

/// A word as eight upper-case hex digits, most significant first.
pub fn format_hex32(val: u32) -> (s: [u8; 8])
    ensures
        forall|i: int| 0 <= i < 8 ==> s@[i] == hex_upper((val as int / pow16(7 - i)) % 16),
{
    let mut s = [0u8; 8];
    for i in 0..8
        invariant
            forall|j: int| 7 - i < j < 8 ==> s@[j] == hex_upper((val as int / pow16(7 - j)) % 16),
    {
        let shift: u32 = (i * 4) as u32;
        let nib = (val >> shift) & 0xF;
        proof {
            lemma_shift_nibble(val, i as u32, shift);
        }
        s[7 - i] = hex_digit_upper(nib as u8);
    }
    s
}

/// 16 to the power `k`.
pub open spec fn pow16(k: int) -> int
    decreases k,
{
    if k <= 0 { 1 } else { 16 * pow16(k - 1) }
}

pub(crate) proof fn lemma_shift_nibble(val: u32, i: u32, s: u32)
    requires
        i < 8,
        s == i * 4,
    ensures
        ((val >> s) & 0xFu32) as int == (val as int / pow16(i as int)) % 16,
        ((val >> s) & 0xFu32) < 16,
{
    assert(((val >> s) & 0xFu32) == (val >> s) % 16 && ((val >> s) & 0xFu32) < 16) by (bit_vector);
    assert(pow16(0) == 1 && pow16(1) == 16 && pow16(2) == 256 && pow16(3) == 4096
        && pow16(4) == 65536 && pow16(5) == 1048576 && pow16(6) == 16777216
        && pow16(7) == 268435456) by {
        reveal_with_fuel(pow16, 8);
    }
    if i == 0 {
        assert(val >> 0u32 == val) by (bit_vector);
    } else if i == 1 {
        assert(val >> 4u32 == val / 16) by (bit_vector);
    } else if i == 2 {
        assert(val >> 8u32 == val / 256) by (bit_vector);
    } else if i == 3 {
        assert(val >> 12u32 == val / 4096) by (bit_vector);
    } else if i == 4 {
        assert(val >> 16u32 == val / 65536) by (bit_vector);
    } else if i == 5 {
        assert(val >> 20u32 == val / 1048576) by (bit_vector);
    } else if i == 6 {
        assert(val >> 24u32 == val / 16777216) by (bit_vector);
    } else {
        assert(val >> 28u32 == val / 268435456) by (bit_vector);
    }
}

/// A signed reading in decimal, with a minus sign when negative.
pub fn format_i16(val: i16) -> (s: Vec<u8>)
    requires
        val != i16::MIN,
    ensures
        s@ == (if val < 0 { seq![45u8] + decimal((-val) as nat) } else { decimal(val as nat) }),
{
    let mut out: Vec<u8> = Vec::new();
    if val < 0 {
        out.push(0x2d);
        push_decimal((-val) as u32, &mut out);
    } else {
        push_decimal(val as u32, &mut out);
    }
    out
}

// ---------------------------------------------------------------------------
// Reading numbers
// ---------------------------------------------------------------------------

/// Reads an unsigned AT argument: text before the first digit is skipped,
/// the digits up to the next non-digit are read; none when there is no
/// digit or the number exceeds `u32::MAX`.
pub fn parse_u32_from_cmd(bytes: &[u8]) -> (r: Option<u32>)
    ensures
        r == parse_u32_model(bytes@),
{
    let ghost s = bytes@;
    let mut result: u32 = 0;
    let mut found_digit = false;
    let ghost mut start: int = 0;
    let mut i: usize = 0;
    while i < bytes.len()
        invariant_except_break
            i <= s.len(),
            s == bytes@,
            !found_digit ==> result == 0 && forall|j: int| 0 <= j < i ==> !is_digit(#[trigger] s[j]),
            found_digit ==> 0 <= start < i
                && first_digit_from(s, 0) == Some(start)
                && (forall|j: int| start <= j < i ==> is_digit(#[trigger] s[j]))
                && result as nat == decimal_value(s.subrange(start, i as int)),
        ensures
            i <= s.len(),
            !found_digit ==> i == s.len() && forall|j: int| 0 <= j < i ==> !is_digit(#[trigger] s[j]),
            found_digit ==> 0 <= start < i
                && first_digit_from(s, 0) == Some(start)
                && (forall|j: int| start <= j < i ==> is_digit(#[trigger] s[j]))
                && (i == s.len() || !is_digit(s[i as int]))
                && result as nat == decimal_value(s.subrange(start, i as int)),
        decreases s.len() - i,
    {
        let b = bytes[i];
        if b >= 48 && b <= 57 {
            if !found_digit {
                proof {
                    start = i as int;
                    lemma_first_digit_is(s, i as int, 0);
                }
            }
            let ghost prev = s.subrange(start, i as int);
            proof {
                assert(s.subrange(start, i + 1) =~= prev.push(b));
                lemma_value_push(prev, b);
            }
            let m = match result.checked_mul(10) {
                Some(m) => m,
                None => {
                    proof {
                        lemma_run_end_past(s, start, i + 1);
                        lemma_value_grows(s, start, i + 1, digit_run_end(s, start));
                    }
                    return None;
                },
            };
            result = match m.checked_add((b - 48) as u32) {
                Some(r) => r,
                None => {
                    proof {
                        lemma_run_end_past(s, start, i + 1);
                        lemma_value_grows(s, start, i + 1, digit_run_end(s, start));
                    }
                    return None;
                },
            };
            found_digit = true;
        } else if found_digit {
            break;
        }
        i = i + 1;
    }
    proof {
        if found_digit {
            lemma_run_end(s, start, i as int);
        }
        if !found_digit {
            lemma_first_digit_none(s, 0);
        }
    }
    if found_digit {
        Some(result)
    } else {
        None
    }
}

/// Reads a signed AT argument: a minus sign before the first digit makes
/// it negative, other text before the digits is skipped, the digits up to
/// the next non-digit are read; none when there is no digit, the digits
/// exceed `i32::MAX`, or the value does not fit in an `i8`.
pub fn parse_i8_from_cmd(bytes: &[u8]) -> (r: Option<i8>)
    ensures
        r == parse_i8_model(bytes@),
{
    let ghost s = bytes@;
    let mut result: i32 = 0;
    let mut negative = false;
    let mut found_digit = false;
    let mut started = false;
    let ghost mut start: int = 0;
    let mut i: usize = 0;
    while i < bytes.len()
        invariant_except_break
            i <= s.len(),
            s == bytes@,
            !found_digit ==> result == 0 && (forall|j: int| 0 <= j < i ==> !is_digit(#[trigger] s[j]))
                && negative == s.take(i as int).contains(45u8)
                && (started <==> negative),
            found_digit ==> 0 <= start < i
                && first_digit_from(s, 0) == Some(start)
                && negative == s.take(start).contains(45u8)
                && (forall|j: int| start <= j < i ==> is_digit(#[trigger] s[j]))
                && result >= 0
                && result as nat == decimal_value(s.subrange(start, i as int)),
            found_digit ==> started,
        ensures
            i <= s.len(),
            !found_digit ==> i == s.len() && forall|j: int| 0 <= j < i ==> !is_digit(#[trigger] s[j]),
            found_digit ==> 0 <= start < i
                && first_digit_from(s, 0) == Some(start)
                && negative == s.take(start).contains(45u8)
                && (forall|j: int| start <= j < i ==> is_digit(#[trigger] s[j]))
                && (i == s.len() || !is_digit(s[i as int]))
                && result >= 0
                && result as nat == decimal_value(s.subrange(start, i as int)),
        decreases s.len() - i,
    {
        let b = bytes[i];
        proof {
            assert(s.take(i + 1) =~= s.take(i as int).push(b));
            vstd::seq_lib::lemma_seq_contains_after_push(s.take(i as int), b, 45u8);
        }
        if b == 45 && !started {
            negative = true;
            started = true;
        } else if b >= 48 && b <= 57 {
            if !found_digit {
                proof {
                    start = i as int;
                    lemma_first_digit_is(s, i as int, 0);
                }
            }
            let ghost prev = s.subrange(start, i as int);
            proof {
                assert(s.subrange(start, i + 1) =~= prev.push(b));
                lemma_value_push(prev, b);
            }
            let m = match result.checked_mul(10) {
                Some(m) => m,
                None => {
                    proof {
                        lemma_run_end_past(s, start, i + 1);
                        lemma_value_grows(s, start, i + 1, digit_run_end(s, start));
                    }
                    return None;
                },
            };
            result = match m.checked_add((b - 48) as i32) {
                Some(r) => r,
                None => {
                    proof {
                        lemma_run_end_past(s, start, i + 1);
                        lemma_value_grows(s, start, i + 1, digit_run_end(s, start));
                    }
                    return None;
                },
            };
            found_digit = true;
            started = true;
        } else if found_digit {
            break;
        }
        i = i + 1;
    }
    proof {
        if found_digit {
            lemma_run_end(s, start, i as int);
        }
        if !found_digit {
            lemma_first_digit_none(s, 0);
        }
    }
    if found_digit {
        let val = if negative { -result } else { result };
        if val >= -128 && val <= 127 {
            Some(val as i8)
        } else {
            None
        }
    } else {
        None
    }
}

} // verus!
