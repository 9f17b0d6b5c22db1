//! Text forms: decimal integers, UTC timestamps and the log line of a record.
use vstd::prelude::*;
use vstd::string::StringExecFns;
use crate::frame::{micros_representable, timestamp_is_representable, SensorData};
use crate::temperature::{temperature_text, two_decimal_text};

verus! {

/// Relies on `String::push`: appends one character.
#[verifier::external_body]
pub(crate) fn push_char(s: &mut String, c: char)
    ensures
        final(s)@ == old(s)@.push(c),
{
    s.push(c)
}

/// The decimal digit character for `d < 10`.
pub open spec fn digit_char(d: int) -> char {
    ((d + 48) as u8) as char
}

/// Decimal digits of `n`, most significant first, without leading zeros.
pub open spec fn digits_text(n: nat) -> Seq<char>
    decreases n,
{
    if n < 10 {
        seq![digit_char(n as int)]
    } else {
        digits_text(n / 10).push(digit_char((n % 10) as int))
    }
}

/// Decimal text of `v`, with a leading `-` when negative.
pub open spec fn decimal_text(v: int) -> Seq<char> {
    if v < 0 {
        seq!['-'] + digits_text((-v) as nat)
    } else {
        digits_text(v as nat)
    }
}

/// Appends the decimal digits of `n`.
pub fn push_digits(out: &mut String, n: u128)
    ensures
        final(out)@ == old(out)@ + digits_text(n as nat),
    decreases n,
{
    if n >= 10 {
        push_digits(out, n / 10);
    }
    let d: u8 = (n % 10) as u8;
    push_char(out, (d + 48) as char);
    proof {
        if n < 10 {
            assert(digits_text(n as nat) =~= seq![digit_char(n as int)]);
        }
    }
}

/// Appends the decimal text of `v`.
pub fn push_decimal(out: &mut String, v: i64)
    ensures
        final(out)@ == old(out)@ + decimal_text(v as int),
{
    if v < 0 {
        push_char(out, '-');
        let m: u128 = (0 - (v as i128)) as u128;
        push_digits(out, m);
        proof {
            assert(old(out)@.push('-') + digits_text(m as nat) =~= old(out)@ + (seq!['-']
                + digits_text(m as nat)));
        }
    } else {
        push_digits(out, v as u128);
    }
}

/// `micros` since the Unix epoch, written `YYYY-MM-DD HH:MM:SS` in UTC.
pub uninterp spec fn utc_second_text(micros: i64) -> Seq<char>;

/// Relies on chrono: `DateTime::<Utc>::from_timestamp_micros` (`Some` exactly on
/// representable counts) and `format("%Y-%m-%d %H:%M:%S")` on the instant.
#[verifier::external_body]
fn utc_seconds(micros: i64) -> (r: Option<String>)
    ensures
        r is Some <==> micros_representable(micros),
        r matches Some(t) ==> t@ == utc_second_text(micros),
{
    match chrono::DateTime::<chrono::Utc>::from_timestamp_micros(micros) {
        Some(t) => Some(t.format("%Y-%m-%d %H:%M:%S").to_string()),
        None => None,
    }
}

/// The log line of `rec`.
pub open spec fn record_line(rec: SensorData) -> Seq<char> {
    match rec {
        SensorData::TempPressure { timestamp, temperature_bits, pressure } => utc_second_text(timestamp)
            + " [S1] temperature="@ + two_decimal_text(temperature_bits) + "C pressure="@ + decimal_text(
            pressure as int,
        ) + "\n"@,
        SensorData::Accelerometer { timestamp, x, y, z } => utc_second_text(timestamp)
            + " [S2] x="@ + decimal_text(x as int) + " y="@ + decimal_text(y as int) + " z="@
            + decimal_text(z as int) + "\n"@,
    }
}

/// Every record line is non-empty and ends in its newline, so one write of
/// it appends one whole line.
pub proof fn lemma_record_line_terminated(rec: SensorData)
    ensures
        record_line(rec).len() > 0,
        record_line(rec).last() == '\n',
{
    reveal_strlit("\n");
}

/// Renders a record as one newline-terminated log line: UTC time to the
/// second, the sensor tag, and the readings (temperature with two
/// fractional digits).
pub fn format_data(rec: &SensorData) -> (r: String)
    requires
        rec.well_formed(),
    ensures
        r@ == record_line(*rec),
{
    let mut out = match utc_seconds(rec.timestamp()) {
        Some(t) => t,
        None => String::new(),
    };
    match rec {
        SensorData::TempPressure { temperature_bits, pressure, .. } => {
            out.append(" [S1] temperature=");
            out.append(temperature_text(*temperature_bits).as_str());
            out.append("C pressure=");
            push_decimal(&mut out, *pressure as i64);
            out.append("\n");
        },
        SensorData::Accelerometer { x, y, z, .. } => {
            out.append(" [S2] x=");
            push_decimal(&mut out, *x as i64);
            out.append(" y=");
            push_decimal(&mut out, *y as i64);
            out.append(" z=");
            push_decimal(&mut out, *z as i64);
            out.append("\n");
        },
    }
    out
}

/// Renders `rec` when its timestamp is representable, and gives `None` otherwise.
pub fn render_record(rec: &SensorData) -> (r: Option<String>)
    ensures
        r is Some <==> rec.well_formed(),
        r matches Some(line) ==> line@ == record_line(*rec),
{
    let ts = rec.timestamp();
    if ts >= 0 && timestamp_is_representable(ts) {
        Some(format_data(rec))
    } else {
        None
    }
}

} // verus!
