//! Sizes, rates and remaining times as text.

use crate::text;
use vstd::prelude::*;
use vstd::string::*;

verus! {

/// Bytes in a kibibyte.
pub const KB: u64 = 1024;

/// Bytes in a mebibyte.
pub const MB: u64 = 1_048_576;

/// Bytes in a gibibyte.
pub const GB: u64 = 1_073_741_824;

/// `n / d` rounded to the nearest whole number, a tie going to the even one.
pub open spec fn round_half_even(n: nat, d: nat) -> nat {
    let q = n / d;
    let r = n % d;
    if 2 * r < d {
        q
    } else if 2 * r > d {
        q + 1
    } else {
        q + q % 2
    }
}

/// The distance between neighbouring double-precision numbers around the whole number `n`,
/// where that distance is at least one: the significand has 53 bits.
pub open spec fn spacing(n: nat) -> nat
    decreases n,
{
    if n < 0x20_0000_0000_0000 {
        1
    } else {
        2 * spacing(n / 2)
    }
}

/// The double-precision number nearest to `n`, a tie going to the even significand.
pub open spec fn nearest_double(n: nat) -> nat {
    round_half_even(n, spacing(n)) * spacing(n)
}

/// `bytes`, held in double precision, in hundredths of `unit`, rounded half to even.
pub open spec fn hundredths(bytes: nat, unit: nat) -> nat {
    round_half_even(nearest_double(bytes) * 100, unit)
}

/// A number of hundredths with two decimals.
pub open spec fn two_decimals(h: nat) -> Seq<char> {
    text::decimal(h / 100) + seq!['.'] + text::padded(h % 100, 2)
}

/// The largest unit that a size reaches.
pub open spec fn unit_of(bytes: u64) -> u64 {
    if bytes >= GB {
        GB
    } else if bytes >= MB {
        MB
    } else if bytes >= KB {
        KB
    } else {
        1
    }
}

/// The name of the largest unit that a size reaches.
pub open spec fn unit_name(bytes: u64) -> Seq<char> {
    if bytes >= GB {
        " GB"@
    } else if bytes >= MB {
        " MB"@
    } else if bytes >= KB {
        " KB"@
    } else {
        " B"@
    }
}

/// A size in the largest unit that it reaches: two decimals, or whole bytes below a kibibyte.
pub open spec fn size_text(bytes: u64) -> Seq<char> {
    if bytes >= KB {
        two_decimals(hundredths(bytes as nat, unit_of(bytes) as nat)) + unit_name(bytes)
    } else {
        text::decimal(bytes as nat) + unit_name(bytes)
    }
}

/// A rate: the size that goes by in a second.
pub open spec fn speed_text(bytes_per_sec: u64) -> Seq<char> {
    size_text(bytes_per_sec) + "/s"@
}

/// The whole seconds that `remaining` bytes take at `speed` bytes a second.
pub open spec fn eta_secs(remaining: u64, speed: u64) -> nat {
    (remaining as nat) / (speed as nat)
}

/// A number of seconds as hours, minutes and seconds.
pub open spec fn clock(total: nat) -> (nat, nat, nat) {
    (total / 3600, total % 3600 / 60, total % 60)
}

/// Minutes and seconds stay below sixty, and hours, minutes and seconds add up to the whole.
pub proof fn clock_adds_up(total: nat)
    ensures
        clock(total).1 < 60,
        clock(total).2 < 60,
        clock(total).0 * 3600 + clock(total).1 * 60 + clock(total).2 == total,
{
}

/// A remaining time as hours, minutes and seconds, without the hours where there are none;
/// the infinity sign where nothing moves.
pub open spec fn eta_text(remaining: u64, speed: u64) -> Seq<char> {
    if speed == 0 {
        "∞"@
    } else {
        let (hours, mins, secs) = clock(eta_secs(remaining, speed));
        let tail = text::padded(mins, 2) + seq![':'] + text::padded(secs, 2);
        if hours > 0 {
            text::padded(hours, 2) + seq![':'] + tail
        } else {
            tail
        }
    }
}

fn round_div(n: u128, d: u128) -> (r: u128)
    requires
        0 < d,
        n < 0x8000_0000_0000_0000_0000_0000_0000_0000,
        d < 0x8000_0000_0000_0000_0000_0000_0000_0000,
    ensures
        r == round_half_even(n as nat, d as nat),
{
    let q: u128 = n / d;
    let r: u128 = n % d;
    assert(q <= n) by (nonlinear_arith)
        requires
            q == n / d,
            0 < d,
    ;
    if 2 * r < d {
        q
    } else if 2 * r > d {
        q + 1
    } else {
        q + q % 2
    }
}

proof fn spacing_bounds(n: nat)
    ensures
        1 <= spacing(n),
        n >= 0x20_0000_0000_0000 ==> spacing(n) * 0x10_0000_0000_0000 <= n,
        n < 0x20_0000_0000_0000 ==> spacing(n) == 1,
    decreases n,
{
    if n >= 0x20_0000_0000_0000 {
        spacing_bounds(n / 2);
        if n / 2 < 0x20_0000_0000_0000 {
            assert(spacing(n) == 2);
        }
    }
}

fn double_spacing(n: u64) -> (r: u64)
    ensures
        r == spacing(n as nat),
        1 <= r <= 0x1000,
    decreases n,
{
    proof {
        spacing_bounds(n as nat);
    }
    if n < 0x20_0000_0000_0000 {
        1
    } else {
        2 * double_spacing(n / 2)
    }
}

proof fn round_is_nearest(n: nat, d: nat)
    requires
        0 < d,
    ensures
        2 * (round_half_even(n, d) * d) <= 2 * n + d,
        2 * n <= 2 * (round_half_even(n, d) * d) + d,
{
    let q = n / d;
    vstd::arithmetic::div_mod::lemma_fundamental_div_mod(n as int, d as int);
    assert(q * d == d * q) by (nonlinear_arith);
    assert((q + 1) * d == q * d + d) by (nonlinear_arith);
    assert(q % 2 == 0 || q % 2 == 1);
}

/// A size is shown to within 0.51 of a hundredth of the unit that it is shown in. Where it is
/// held exactly, below nine pebibytes, it is shown to within half a hundredth.
pub proof fn shown_size_is_near(bytes: u64)
    requires
        bytes >= KB,
    ensures
        ({
            let unit = unit_of(bytes) as nat;
            let shown = hundredths(bytes as nat, unit) * unit;
            &&& 100 * shown <= 100 * (bytes * 100) + 51 * unit
            &&& 100 * (bytes * 100) <= 100 * shown + 51 * unit
            &&& bytes < 0x20_0000_0000_0000 ==> 2 * shown <= 2 * (bytes * 100) + unit
            &&& bytes < 0x20_0000_0000_0000 ==> 2 * (bytes * 100) <= 2 * shown + unit
        }),
{
    let n = bytes as nat;
    spacing_bounds(n);
    round_is_nearest(n, spacing(n));
    round_is_nearest(nearest_double(n) * 100, unit_of(bytes) as nat);
    assert(round_half_even(n, 1) == n);
}

/// The double-precision number nearest to `n`, a tie going to the even significand.
fn to_double(n: u64) -> (r: u128)
    ensures
        r == nearest_double(n as nat),
        r <= 0x2_0000_0000_0000_0000,
{
    let unit: u128 = double_spacing(n) as u128;
    let steps: u128 = round_div(n as u128, unit);
    proof {
        round_is_nearest(n as nat, unit as nat);
    }
    steps * unit
}

/// Appends `bytes` in `unit` with two decimals.
fn push_scaled(out: &mut String, bytes: u64, unit: u64)
    requires
        unit >= KB,
    ensures
        final(out)@ == old(out)@ + two_decimals(hundredths(bytes as nat, unit as nat)),
{
    let d: u128 = to_double(bytes);
    let h: u128 = round_div(d * 100, unit as u128);
    proof {
        round_is_nearest((d * 100) as nat, unit as nat);
        assert(h <= u64::MAX) by (nonlinear_arith)
            requires
                h * unit <= d * 100 + unit,
                d <= 0x2_0000_0000_0000_0000,
                unit >= 1024,
        ;
    }
    let h: u64 = h as u64;
    text::push_decimal(out, h / 100);
    proof {
        reveal_strlit(".");
    }
    out.append(".");
    text::push_padded(out, h % 100, 2);
    assert(out@ =~= old(out)@ + two_decimals(hundredths(bytes as nat, unit as nat)));
}

/// A size in the largest unit that it reaches: two decimals, or whole bytes below a kibibyte.
pub fn format_size(bytes: u64) -> (r: String)
    ensures
        r@ == size_text(bytes),
{
    let mut out = String::new();
    if bytes >= GB {
        push_scaled(&mut out, bytes, GB);
        out.append(" GB");
    } else if bytes >= MB {
        push_scaled(&mut out, bytes, MB);
        out.append(" MB");
    } else if bytes >= KB {
        push_scaled(&mut out, bytes, KB);
        out.append(" KB");
    } else {
        text::push_decimal(&mut out, bytes);
        out.append(" B");
    }
    assert(out@ =~= size_text(bytes));
    out
}

/// A rate: the size that goes by in a second.
pub fn format_speed(bytes_per_sec: u64) -> (r: String)
    ensures
        r@ == speed_text(bytes_per_sec),
{
    let mut out = format_size(bytes_per_sec);
    out.append("/s");
    out
}

/// A remaining time as hours, minutes and seconds, without the hours where there are none;
/// the infinity sign where nothing moves.
pub fn format_eta(remaining_bytes: u64, speed: u64) -> (r: String)
    ensures
        r@ == eta_text(remaining_bytes, speed),
{
    if speed == 0 {
        return "∞".to_owned();
    }
    proof {
        reveal_strlit(":");
    }
    let total: u64 = remaining_bytes / speed;
    let hours: u64 = total / 3600;
    let mins: u64 = (total % 3600) / 60;
    let secs: u64 = total % 60;
    let mut out = String::new();
    if hours > 0 {
        text::push_padded(&mut out, hours, 2);
        out.append(":");
    }
    text::push_padded(&mut out, mins, 2);
    out.append(":");
    text::push_padded(&mut out, secs, 2);
    assert(out@ =~= eta_text(remaining_bytes, speed));
    out
}

/// Whether a text writes a number of bytes in a unit: a whole number, a point, two digits and the
/// unit's name, off by 0.51 of a hundredth of the unit at most.
pub open spec fn writes_size(s: Seq<char>, bytes: int, unit: int, name: Seq<char>) -> bool {
    exists|whole: Seq<char>, part: Seq<char>|
        {
            let shown = (100 * text::digits_value(whole) + text::digits_value(part)) * unit;
            &&& s == #[trigger] (whole + seq!['.'] + part + name)
            &&& text::all_digits(whole) && text::all_digits(part) && part.len() == 2
            &&& 100 * shown <= 100 * (100 * bytes) + 51 * unit
            &&& 100 * (100 * bytes) <= 100 * shown + 51 * unit
        }
}

/// A size from a gibibyte up is written in gibibytes, below that one from a mebibyte up in
/// mebibytes, below that one from a kibibyte up in kibibytes, and any smaller one exactly in bytes.
/// A rate is the size and that it is by the second.
pub proof fn size_is_written_in_its_unit(bytes: u64)
    ensures
        bytes >= 1_073_741_824 ==> writes_size(
            size_text(bytes),
            bytes as int,
            1_073_741_824,
            " GB"@,
        ),
        1_048_576 <= bytes < 1_073_741_824 ==> writes_size(
            size_text(bytes),
            bytes as int,
            1_048_576,
            " MB"@,
        ),
        1024 <= bytes < 1_048_576 ==> writes_size(size_text(bytes), bytes as int, 1024, " KB"@),
        bytes < 1024 ==> size_text(bytes) == text::decimal(bytes as nat) + " B"@,
        speed_text(bytes) == size_text(bytes) + "/s"@,
{
    if bytes >= 1024 {
        let unit = unit_of(bytes) as nat;
        let h = hundredths(bytes as nat, unit);
        let whole = text::decimal(h / 100);
        let part = text::padded(h % 100, 2);
        shown_size_is_near(bytes);
        text::decimal_is_digits(h / 100);
        text::padding_keeps_value(h % 100, 2);
        text::two_digits_suffice(h % 100);
        assert(100 * (h / 100) + h % 100 == h);
        assert(size_text(bytes) == whole + seq!['.'] + part + unit_name(bytes));
        assert(writes_size(size_text(bytes), bytes as int, unit as int, unit_name(bytes)));
    }
}

/// A remaining time of `t` whole seconds is written as minutes and seconds of two digits each, with
/// the hours in front, of two digits or more, where it is an hour or longer: together they are `t`,
/// and neither minutes nor seconds come to sixty.
pub proof fn remaining_time_is_written_out(remaining: u64, speed: u64, t: nat)
    requires
        t * speed <= remaining < (t + 1) * speed,
    ensures
        t < 3600 ==> exists|m: Seq<char>, s: Seq<char>|
            {
                &&& eta_text(remaining, speed) == #[trigger] (m + seq![':'] + s)
                &&& text::all_digits(m) && m.len() == 2 && text::digits_value(m) < 60
                &&& text::all_digits(s) && s.len() == 2 && text::digits_value(s) < 60
                &&& 60 * text::digits_value(m) + text::digits_value(s) == t
            },
        t >= 3600 ==> exists|h: Seq<char>, m: Seq<char>, s: Seq<char>|
            {
                &&& eta_text(remaining, speed) == #[trigger] (h + seq![':'] + (m + seq![':'] + s))
                &&& text::all_digits(h) && h.len() >= 2
                &&& text::all_digits(m) && m.len() == 2 && text::digits_value(m) < 60
                &&& text::all_digits(s) && s.len() == 2 && text::digits_value(s) < 60
                &&& 3600 * text::digits_value(h) + 60 * text::digits_value(m)
                    + text::digits_value(s) == t
            },
{
    assert(speed > 0) by (nonlinear_arith)
        requires
            t * speed < (t + 1) * speed,
            speed >= 0,
    ;
    assert((remaining as int) / (speed as int) == t) by {
        let r = remaining - t * speed;
        assert((t + 1) * speed == t * speed + speed) by (nonlinear_arith);
        vstd::arithmetic::div_mod::lemma_fundamental_div_mod_converse(
            remaining as int,
            speed as int,
            t as int,
            r,
        );
    }
    let (hours, mins, secs) = clock(t);
    clock_adds_up(t);
    let h = text::padded(hours, 2);
    let m = text::padded(mins, 2);
    let s = text::padded(secs, 2);
    text::padding_keeps_value(hours, 2);
    text::padding_keeps_value(mins, 2);
    text::padding_keeps_value(secs, 2);
    text::two_digits_suffice(mins);
    text::two_digits_suffice(secs);
    text::padding_fills_up(hours, 2);
    if t < 3600 {
        assert(eta_text(remaining, speed) == m + seq![':'] + s);
    } else {
        assert(eta_text(remaining, speed) == h + seq![':'] + (m + seq![':'] + s));
    }
}

/// Where nothing moves the remaining time is without end, whatever is missing.
pub proof fn nothing_moves_without_end(remaining: u64)
    ensures
        eta_text(remaining, 0) == "∞"@,
{
}

/// Rounding goes to the nearest whole number, and half way between two to the even one.
pub proof fn rounding_goes_to_the_nearest(n: nat, d: nat)
    requires
        d > 0,
    ensures
        ({
            let q = round_half_even(n, d);
            &&& -(d as int) <= 2 * (q * d - n) <= d
            &&& 2 * (q * d - n) == d || 2 * (q * d - n) == -(d as int) ==> q % 2 == 0
        }),
{
    round_is_nearest(n, d);
    let q = n / d;
    vstd::arithmetic::div_mod::lemma_fundamental_div_mod(n as int, d as int);
    assert(q * d == d * q) by (nonlinear_arith);
    assert((q + 1) * d == q * d + d) by (nonlinear_arith);
}

/// Where a size lies half way between two hundredths of its unit, and is held exactly, the even one
/// is shown.
pub proof fn ties_show_the_even_hundredth(bytes: u64)
    requires
        KB <= bytes < 0x20_0000_0000_0000,
        (200 * bytes) % (2 * unit_of(bytes) as int) == unit_of(bytes),
    ensures
        hundredths(bytes as nat, unit_of(bytes) as nat) % 2 == 0,
{
    let unit = unit_of(bytes) as nat;
    let n = (bytes * 100) as nat;
    spacing_bounds(bytes as nat);
    assert(round_half_even(bytes as nat, 1) == bytes);
    assert(nearest_double(bytes as nat) == bytes);
    let q = n / unit;
    let r = n % unit;
    vstd::arithmetic::div_mod::lemma_fundamental_div_mod(n as int, unit as int);
    assert(200 * bytes == q * (2 * unit) + 2 * r) by (nonlinear_arith)
        requires
            bytes * 100 == unit * q + r,
    ;
    assert((200 * bytes) % (2 * unit as int) == 2 * r) by {
        vstd::arithmetic::div_mod::lemma_fundamental_div_mod_converse(
            200 * bytes,
            2 * unit as int,
            q as int,
            2 * r as int,
        );
    }
}

/// A double-precision number has fifty-three bits: from there on a number is held to the nearest
/// multiple of a power of two that leaves it that many, half way to the even multiple; below it is
/// held exactly.
pub proof fn doubles_have_fifty_three_bits(n: nat)
    ensures
        n < 0x20_0000_0000_0000 ==> nearest_double(n) == n,
        exists|k: nat| spacing(n) == #[trigger] vstd::arithmetic::power2::pow2(k),
        n >= 0x20_0000_0000_0000 ==> spacing(n) * 0x10_0000_0000_0000 <= n < spacing(n)
            * 0x20_0000_0000_0000,
        exists|q: nat|
            {
                &&& nearest_double(n) == #[trigger] (q * spacing(n))
                &&& -(spacing(n) as int) <= 2 * (q * spacing(n) - n) <= spacing(n)
                &&& 2 * (q * spacing(n) - n) == spacing(n) || 2 * (q * spacing(n) - n) == -(spacing(
                    n,
                ) as int) ==> q % 2 == 0
            },
    decreases n,
{
    spacing_bounds(n);
    rounding_goes_to_the_nearest(n, spacing(n));
    let q = round_half_even(n, spacing(n));
    assert(nearest_double(n) == q * spacing(n));
    if n < 0x20_0000_0000_0000 {
        vstd::arithmetic::power2::lemma2_to64();
        assert(spacing(n) == vstd::arithmetic::power2::pow2(0));
        assert(round_half_even(n, 1) == n);
    } else {
        doubles_have_fifty_three_bits(n / 2);
        let k = choose|k: nat| spacing(n / 2) == #[trigger] vstd::arithmetic::power2::pow2(k);
        vstd::arithmetic::power2::lemma_pow2_unfold(k + 1);
        assert(spacing(n) == vstd::arithmetic::power2::pow2(k + 1));
    }
}

/// The hundredths that are shown are the nearest to a size as it is held in double precision, and
/// half way the even number of them: sizes that are held alike are shown alike in a unit.
pub proof fn sizes_held_alike_are_shown_alike(a: nat, b: nat, unit: nat)
    requires
        unit > 0,
    ensures
        nearest_double(a) == nearest_double(b) ==> hundredths(a, unit) == hundredths(b, unit),
        ({
            let h = hundredths(a, unit);
            let off = h * unit - 100 * nearest_double(a);
            &&& -(unit as int) <= 2 * off <= unit
            &&& 2 * off == unit || 2 * off == -(unit as int) ==> h % 2 == 0
        }),
{
    rounding_goes_to_the_nearest(nearest_double(a) * 100, unit);
}

} // verus!
