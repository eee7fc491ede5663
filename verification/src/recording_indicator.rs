//! The text of the floating "recording" indicator.

use vstd::prelude::*;
use crate::text::{decimal, digit_char, push_decimal};

verus! {

/// `n` in decimal, with a leading zero when it has a single digit.
pub open spec fn two_digits(n: nat) -> Seq<char> {
    if n < 10 {
        seq!['0'] + decimal(n)
    } else {
        decimal(n)
    }
}

/// A number below one hundred is written with exactly two digits, its tens
/// and its units; from ten on, the field is the number's plain decimal form.
pub proof fn lemma_two_digits_width(n: nat)
    ensures
        n < 100 ==> two_digits(n) == seq![digit_char(n / 10), digit_char(n % 10)],
        n >= 10 ==> two_digits(n) == decimal(n),
{
    if n < 10 {
        assert(digit_char(0) == '0');
        assert(two_digits(n) =~= seq![digit_char(n / 10), digit_char(n % 10)]);
    } else if n < 100 {
        assert(decimal(n / 10) == seq![digit_char(n / 10)]);
        assert(two_digits(n) =~= seq![digit_char(n / 10), digit_char(n % 10)]);
    }
}

fn push_two_digits(out: &mut String, n: u64)
    ensures
        final(out)@ == old(out)@ + two_digits(n as nat),
{
    if n < 10 {
        out.append("0");
        proof {
            reveal_strlit("0");
        }
    }
    let ghost mid = out@;
    push_decimal(out, n);
    assert(final(out)@ =~= old(out)@ + two_digits(n as nat));
}

/// "MM:SS · N frames": the time since the recording started, minutes and
/// seconds each at least two digits wide, and the number of frames so far.
pub fn recording_status(elapsed_secs: u64, frame_count: usize) -> (r: String)
    ensures
        r@ == two_digits((elapsed_secs / 60) as nat) + seq![':'] + two_digits(
            (elapsed_secs % 60) as nat,
        ) + " · "@ + decimal(frame_count as nat) + " frames"@,
        elapsed_secs < 6000 ==> r@.take(5) == seq![
            digit_char((elapsed_secs / 600) as nat),
            digit_char((elapsed_secs / 60 % 10) as nat),
            ':',
            digit_char((elapsed_secs % 60 / 10) as nat),
            digit_char((elapsed_secs % 10) as nat),
        ],
{
    proof {
        lemma_two_digits_width((elapsed_secs / 60) as nat);
        lemma_two_digits_width((elapsed_secs % 60) as nat);
        assert(elapsed_secs / 60 / 10 == elapsed_secs / 600);
        assert(elapsed_secs % 60 % 10 == elapsed_secs % 10);
    }
    let mut r = String::new();
    push_two_digits(&mut r, elapsed_secs / 60);
    r.append(":");
    proof {
        reveal_strlit(":");
    }
    push_two_digits(&mut r, elapsed_secs % 60);
    r.append(" · ");
    push_decimal(&mut r, frame_count as u64);
    r.append(" frames");
    assert(r@ =~= two_digits((elapsed_secs / 60) as nat) + seq![':'] + two_digits(
        (elapsed_secs % 60) as nat,
    ) + " · "@ + decimal(frame_count as nat) + " frames"@);
    assert(elapsed_secs < 6000 ==> r@.take(5) =~= seq![
        digit_char((elapsed_secs / 600) as nat),
        digit_char((elapsed_secs / 60 % 10) as nat),
        ':',
        digit_char((elapsed_secs % 60 / 10) as nat),
        digit_char((elapsed_secs % 10) as nat),
    ]);
    r
}

} // verus!
