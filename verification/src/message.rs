//! Composition of the plain-text notification messages handed to the
//! notification collaborator when the mailbox changes state.
//!
//! Distances are reported in centimeters with one decimal place; when both
//! are known, the last voltage and temperature are appended
//! parenthetically, printed without trailing fractional zeros.

use vstd::math::abs;
use vstd::prelude::*;
use vstd::string::StringExecFns;

use crate::tracker::{TransitionEvent, TransitionKind};

verus! {

/// The character of one decimal digit.
pub open spec fn digit_char(d: int) -> char
    recommends
        0 <= d <= 9,
{
    if d == 0 {
        '0'
    } else if d == 1 {
        '1'
    } else if d == 2 {
        '2'
    } else if d == 3 {
        '3'
    } else if d == 4 {
        '4'
    } else if d == 5 {
        '5'
    } else if d == 6 {
        '6'
    } else if d == 7 {
        '7'
    } else if d == 8 {
        '8'
    } else {
        '9'
    }
}

/// The decimal representation of a natural number, most significant digit
/// first, without leading zeros (a single zero for zero itself).
pub open spec fn dec_rep(n: nat) -> Seq<char>
    decreases n,
{
    if n < 10 {
        seq![digit_char(n as int)]
    } else {
        dec_rep(n / 10).push(digit_char((n % 10) as int))
    }
}

/// A distance in millimeters rendered as centimeters with exactly one
/// decimal place.
pub open spec fn cm_rep(mm: u16) -> Seq<char> {
    dec_rep((mm / 10) as nat) + seq!['.', digit_char((mm % 10) as int)]
}

/// A tenths-scaled value rendered as its plain decimal number: the
/// fractional digit is printed only when it is non-zero.
pub open spec fn tenths_rep(v: int) -> Seq<char>
    recommends
        -32768 <= v <= 32767,
{
    let sign: Seq<char> = if v < 0 {
        seq!['-']
    } else {
        Seq::empty()
    };
    let a = abs(v);
    if a % 10 == 0 {
        sign + dec_rep(a / 10)
    } else {
        sign + dec_rep(a / 10) + seq!['.', digit_char((a % 10) as int)]
    }
}

/// A hundredths-scaled value rendered as its plain decimal number:
/// trailing fractional zeros are dropped.
pub open spec fn hundredths_rep(v: int) -> Seq<char>
    recommends
        -32768 <= v <= 32767,
{
    let sign: Seq<char> = if v < 0 {
        seq!['-']
    } else {
        Seq::empty()
    };
    let a = abs(v);
    if a % 100 == 0 {
        sign + dec_rep(a / 100)
    } else if a % 10 == 0 {
        sign + dec_rep(a / 100) + seq!['.', digit_char(((a / 10) % 10) as int)]
    } else {
        sign + dec_rep(a / 100) + seq![
            '.',
            digit_char(((a / 10) % 10) as int),
            digit_char((a % 10) as int),
        ]
    }
}

/// The parenthetical statistics suffix: the last known voltage
/// (hundredths of a volt) and temperature (tenths of a degree Celsius).
pub open spec fn stats_suffix(voltage: i16, temperature: i16) -> Seq<char> {
    " (_Voltage: "@ + hundredths_rep(voltage as int) + "V, temperature: "@ + tenths_rep(
        temperature as int,
    ) + "°C._)"@
}

/// The message body for a transition event, with the distances before and
/// after in centimeters.
pub open spec fn transition_text(e: TransitionEvent) -> Seq<char> {
    match e.kind {
        TransitionKind::BecameFull => "\u{1F4EC} Mailbox is full! Distance changed from "@
            + cm_rep(e.previous) + "cm to "@ + cm_rep(e.new) + "cm."@,
        TransitionKind::BecameEmpty => "\u{1F4ED} Mailbox was emptied. Distance changed from "@
            + cm_rep(e.previous) + "cm to "@ + cm_rep(e.new) + "cm."@,
    }
}

/// The full notification text: the transition body, with the statistics
/// suffix appended when both auxiliary readings are known.
pub open spec fn notification_text(
    e: TransitionEvent,
    voltage: Option<i16>,
    temperature: Option<i16>,
) -> Seq<char> {
    match (voltage, temperature) {
        (Some(v), Some(t)) => transition_text(e) + stats_suffix(v, t),
        _ => transition_text(e),
    }
}

/// Appends one decimal digit.
fn push_digit(s: &mut String, d: u32)
    requires
        d < 10,
    ensures
        final(s)@ == old(s)@ + seq![digit_char(d as int)],
{
    if d == 0 {
        s.append("0");
        proof {
            reveal_strlit("0");
            assert("0"@ =~= seq![digit_char(0)]);
        }
    } else if d == 1 {
        s.append("1");
        proof {
            reveal_strlit("1");
            assert("1"@ =~= seq![digit_char(1)]);
        }
    } else if d == 2 {
        s.append("2");
        proof {
            reveal_strlit("2");
            assert("2"@ =~= seq![digit_char(2)]);
        }
    } else if d == 3 {
        s.append("3");
        proof {
            reveal_strlit("3");
            assert("3"@ =~= seq![digit_char(3)]);
        }
    } else if d == 4 {
        s.append("4");
        proof {
            reveal_strlit("4");
            assert("4"@ =~= seq![digit_char(4)]);
        }
    } else if d == 5 {
        s.append("5");
        proof {
            reveal_strlit("5");
            assert("5"@ =~= seq![digit_char(5)]);
        }
    } else if d == 6 {
        s.append("6");
        proof {
            reveal_strlit("6");
            assert("6"@ =~= seq![digit_char(6)]);
        }
    } else if d == 7 {
        s.append("7");
        proof {
            reveal_strlit("7");
            assert("7"@ =~= seq![digit_char(7)]);
        }
    } else if d == 8 {
        s.append("8");
        proof {
            reveal_strlit("8");
            assert("8"@ =~= seq![digit_char(8)]);
        }
    } else {
        s.append("9");
        proof {
            reveal_strlit("9");
            assert("9"@ =~= seq![digit_char(9)]);
        }
    }
}

/// Appends the decimal representation of a number.
fn push_decimal(s: &mut String, n: u32)
    ensures
        final(s)@ == old(s)@ + dec_rep(n as nat),
    decreases n,
{
    if n < 10 {
        push_digit(s, n);
    } else {
        push_decimal(s, n / 10);
        push_digit(s, n % 10);
        proof {
            assert(old(s)@ + dec_rep((n / 10) as nat) + seq![digit_char((n % 10) as int)] =~= old(
                s,
            )@ + dec_rep(n as nat));
        }
    }
}

/// Appends a millimeter distance as centimeters with one decimal place.
fn push_cm(s: &mut String, mm: u16)
    ensures
        final(s)@ == old(s)@ + cm_rep(mm),
{
    push_decimal(s, (mm / 10) as u32);
    s.append(".");
    push_digit(s, (mm % 10) as u32);
    proof {
        reveal_strlit(".");
        assert("."@ =~= seq!['.']);
        assert(old(s)@ + dec_rep((mm / 10) as nat) + seq!['.'] + seq![
            digit_char((mm % 10) as int),
        ] =~= old(s)@ + cm_rep(mm));
    }
}

/// The magnitude of a scaled reading, widened so that the most negative
/// value has one too.
fn magnitude(v: i16) -> (r: u32)
    ensures
        r == abs(v as int),
{
    if v < 0 {
        (-(v as i32)) as u32
    } else {
        v as u32
    }
}

/// Appends a tenths-scaled value as a plain decimal number.
fn push_tenths(s: &mut String, v: i16)
    ensures
        final(s)@ == old(s)@ + tenths_rep(v as int),
{
    if v < 0 {
        s.append("-");
        proof {
            reveal_strlit("-");
            assert("-"@ =~= seq!['-']);
        }
    }
    let a = magnitude(v);
    push_decimal(s, a / 10);
    if a % 10 != 0 {
        s.append(".");
        push_digit(s, a % 10);
        proof {
            reveal_strlit(".");
            assert("."@ =~= seq!['.']);
        }
    }
    proof {
        assert(final(s)@ =~= old(s)@ + tenths_rep(v as int));
    }
}

/// Appends a hundredths-scaled value as a plain decimal number.
fn push_hundredths(s: &mut String, v: i16)
    ensures
        final(s)@ == old(s)@ + hundredths_rep(v as int),
{
    if v < 0 {
        s.append("-");
        proof {
            reveal_strlit("-");
            assert("-"@ =~= seq!['-']);
        }
    }
    let a = magnitude(v);
    push_decimal(s, a / 100);
    if a % 100 != 0 {
        s.append(".");
        push_digit(s, (a / 10) % 10);
        proof {
            reveal_strlit(".");
            assert("."@ =~= seq!['.']);
        }
        if a % 10 != 0 {
            push_digit(s, a % 10);
        }
    }
    proof {
        assert(final(s)@ =~= old(s)@ + hundredths_rep(v as int));
    }
}

/// Appends the voltage/temperature statistics when both are known, as the
/// notification text carries them; with either reading missing the
/// message is left unchanged.
pub fn maybe_append_stats(msg: &mut String, voltage: Option<i16>, temperature: Option<i16>)
    ensures
        match (voltage, temperature) {
            (Some(v), Some(t)) => final(msg)@ == old(msg)@ + stats_suffix(v, t),
            _ => final(msg)@ == old(msg)@,
        },
{
    if let (Some(v), Some(t)) = (voltage, temperature) {
        msg.append(" (_Voltage: ");
        push_hundredths(msg, v);
        msg.append("V, temperature: ");
        push_tenths(msg, t);
        msg.append("°C._)");
        proof {
            assert(final(msg)@ =~= old(msg)@ + stats_suffix(v, t));
        }
    }
}

/// Composes the complete notification message for a transition event,
/// given the last known voltage and temperature readings.
pub fn compose_notification(
    event: &TransitionEvent,
    voltage: Option<i16>,
    temperature: Option<i16>,
) -> (r: String)
    ensures
        r@ == notification_text(*event, voltage, temperature),
{
    let mut msg = String::new();
    match event.kind {
        TransitionKind::BecameFull => {
            msg.append("\u{1F4EC} Mailbox is full! Distance changed from ");
        },
        TransitionKind::BecameEmpty => {
            msg.append("\u{1F4ED} Mailbox was emptied. Distance changed from ");
        },
    }
    push_cm(&mut msg, event.previous);
    msg.append("cm to ");
    push_cm(&mut msg, event.new);
    msg.append("cm.");
    proof {
        assert(msg@ =~= transition_text(*event));
    }
    maybe_append_stats(&mut msg, voltage, temperature);
    proof {
        assert(msg@ =~= notification_text(*event, voltage, temperature));
    }
    msg
}

} // verus!
