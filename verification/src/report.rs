use vstd::prelude::*;
use vstd::string::*;

verus! {

/// The character that writes a digit.
pub open spec fn digit_char(d: nat) -> char {
    ((48 + d % 10) as u8) as char
}

/// A number written in base ten, without leading zeros.
pub open spec fn number_text(n: nat) -> Seq<char>
    decreases n,
{
    if n < 10 {
        seq![digit_char(n)]
    } else {
        number_text(n / 10).push(digit_char(n % 10))
    }
}

/// The last `places` digits of a number, with zeros in front where the
/// number is short.
pub open spec fn padded_text(n: nat, places: nat) -> Seq<char>
    decreases places,
{
    if places == 0 {
        seq![]
    } else {
        padded_text(n / 10, (places - 1) as nat).push(digit_char(n % 10))
    }
}

/// A number without its last `places` digits.
pub open spec fn shifted(n: nat, places: nat) -> nat
    decreases places,
{
    if places == 0 {
        n
    } else {
        shifted(n / 10, (places - 1) as nat)
    }
}

/// A number of `places` decimal places, given as the count of its smallest
/// unit: 12345 with 2 places reads `123.45`.
pub open spec fn fixed_text(scaled: nat, places: nat) -> Seq<char> {
    number_text(shifted(scaled, places)) + seq!['.'] + padded_text(scaled, places)
}

/// The quotient to the nearest whole number, a half counting upwards.
pub open spec fn nearest_quotient(num: nat, den: nat) -> nat
    recommends
        den > 0,
{
    if 2 * (num % den) >= den {
        num / den + 1
    } else {
        num / den
    }
}

/// The time taken, in ten-thousandths of a second.
pub open spec fn total_scaled(nanos: nat) -> nat {
    nearest_quotient(nanos, 100_000)
}

/// The time per picture, in hundredths of a millisecond; 0 where no picture
/// was drawn.
pub open spec fn average_scaled(frames: nat, nanos: nat) -> nat {
    if frames == 0 {
        0
    } else {
        nearest_quotient(nanos, frames * 10_000)
    }
}

/// Pictures per second, in hundredths; 0 where no time was measured.
pub open spec fn rate_scaled(frames: nat, nanos: nat) -> nat {
    if nanos == 0 {
        0
    } else {
        nearest_quotient(frames * 100_000_000_000, nanos)
    }
}

/// The five lines that a measured run reports.
pub open spec fn report_text(frames: nat, nanos: nat) -> Seq<char> {
    "Language: Rust\nFrames: "@ + number_text(frames) + "\nTotal Time: "@ + fixed_text(
        total_scaled(nanos),
        4,
    ) + "s\nAvg Frame Time: "@ + fixed_text(average_scaled(frames, nanos), 2) + "ms\nFPS: "@
        + fixed_text(rate_scaled(frames, nanos), 2) + "\n"@
}

/// Computes `nearest_quotient`.
pub fn nearest(num: u128, den: u128) -> (r: u128)
    requires
        den > 0,
    ensures
        r == nearest_quotient(num as nat, den as nat),
{
    let q: u128 = num / den;
    let rest: u128 = num % den;
    if rest >= den - rest {
        assert(q < num) by (nonlinear_arith)
            requires
                q == num as int / den as int,
                num as int % den as int > 0,
                den >= 2,
        ;
        q + 1
    } else {
        q
    }
}

/// Appends a number in base ten.
pub fn push_number(out: &mut String, n: u128)
    ensures
        final(out)@ == old(out)@ + number_text(n as nat),
    decreases n,
{
    if n >= 10 {
        push_number(out, n / 10);
    }
    let digit: u8 = (n % 10) as u8;
    out.push((48 + digit) as char);
    proof {
        let before = old(out)@;
        if n >= 10 {
            assert(before + number_text((n / 10) as nat).push(digit_char((n % 10) as nat))
                =~= (before + number_text((n / 10) as nat)).push(digit_char((n % 10) as nat)));
        } else {
            assert(before + seq![digit_char(n as nat)] =~= before.push(digit_char(n as nat)));
        }
    }
}

/// Appends the last `places` digits of a number, zeros in front.
fn push_padded(out: &mut String, n: u128, places: u8)
    ensures
        final(out)@ == old(out)@ + padded_text(n as nat, places as nat),
    decreases places,
{
    if places > 0 {
        push_padded(out, n / 10, places - 1);
        let digit: u8 = (n % 10) as u8;
        out.push((48 + digit) as char);
        proof {
            let before = old(out)@;
            let head = padded_text((n / 10) as nat, (places - 1) as nat);
            let last = digit_char((n % 10) as nat);
            assert(before + head.push(last) =~= (before + head).push(last));
        }
    } else {
        assert(old(out)@ + Seq::<char>::empty() =~= old(out)@);
    }
}

/// Drops the last `places` digits of a number.
fn shift(n: u128, places: u8) -> (r: u128)
    ensures
        r == shifted(n as nat, places as nat),
    decreases places,
{
    if places == 0 {
        n
    } else {
        shift(n / 10, places - 1)
    }
}

/// Appends a number of `places` decimal places, given as the count of its
/// smallest unit.
pub fn push_fixed(out: &mut String, scaled: u128, places: u8)
    ensures
        final(out)@ == old(out)@ + fixed_text(scaled as nat, places as nat),
{
    let ghost before = out@;
    push_number(out, shift(scaled, places));
    out.push('.');
    push_padded(out, scaled, places);
    proof {
        let whole = number_text(shifted(scaled as nat, places as nat));
        let tail = padded_text(scaled as nat, places as nat);
        assert((before + whole).push('.') + tail =~= before + (whole + seq!['.'] + tail));
    }
}

/// The report of a measured run of `frames` pictures that took `nanos`
/// nanoseconds: a label, the count, the time in seconds, the time per picture
/// in milliseconds and the pictures per second. Where no picture was drawn
/// the time per picture reads 0.00, and where no time was measured the rate
/// reads 0.00: nothing is divided by zero.
pub fn benchmark_report(frames: usize, nanos: u64) -> (text: String)
    ensures
        text@ == report_text(frames as nat, nanos as nat),
{
    let count: u128 = frames as u128;
    let time: u128 = nanos as u128;
    let total: u128 = nearest(time, 100_000);
    let average: u128 = if frames == 0 {
        0
    } else {
        nearest(time, count * 10_000)
    };
    let rate: u128 = if nanos == 0 {
        0
    } else {
        nearest(count * 100_000_000_000, time)
    };
    let mut out = String::from_str("Language: Rust\nFrames: ");
    push_number(&mut out, count);
    out.append("\nTotal Time: ");
    push_fixed(&mut out, total, 4);
    out.append("s\nAvg Frame Time: ");
    push_fixed(&mut out, average, 2);
    out.append("ms\nFPS: ");
    push_fixed(&mut out, rate, 2);
    out.append("\n");
    out
}

} // verus!
