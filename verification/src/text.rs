//! Plain-text rendering: a duration as a human-readable decimal string, and
//! the whitespace run used to indent traced messages.

use vstd::prelude::*;
use vstd::string::StringExecFns;

verus! {

/// The decimal digit `d` as a one-character string view.
pub open spec fn dec_digit(d: int) -> Seq<char> {
    if d == 0 {
        "0"@
    } else if d == 1 {
        "1"@
    } else if d == 2 {
        "2"@
    } else if d == 3 {
        "3"@
    } else if d == 4 {
        "4"@
    } else if d == 5 {
        "5"@
    } else if d == 6 {
        "6"@
    } else if d == 7 {
        "7"@
    } else if d == 8 {
        "8"@
    } else {
        "9"@
    }
}

/// `n` written in decimal, most significant digit first, no leading zeros
/// (except for zero itself).
pub open spec fn dec_chars(n: nat) -> Seq<char>
    decreases n,
{
    if n < 10 {
        dec_digit(n as int)
    } else {
        dec_chars(n / 10) + dec_digit((n % 10) as int)
    }
}

/// `n` in decimal, left-padded with zeros to three digits; `n` is a
/// sub-unit remainder below one thousand.
pub open spec fn pad3(n: nat) -> Seq<char> {
    if n >= 100 {
        dec_chars(n)
    } else if n >= 10 {
        "0"@ + dec_chars(n)
    } else {
        "00"@ + dec_chars(n)
    }
}

/// A duration of `nanos` nanoseconds rendered at its largest non-empty unit,
/// with the next smaller unit as three zero-padded decimals: `1.003s`,
/// `40.000ms`, `5.020µs`, `999ns`.
pub open spec fn duration_text(nanos: nat) -> Seq<char> {
    let secs = nanos / 1_000_000_000;
    let subsec = nanos % 1_000_000_000;
    let millis = subsec / 1_000_000;
    let micros = (subsec / 1_000) % 1_000;
    let nns = subsec % 1_000;
    if secs != 0 {
        dec_chars(secs) + "."@ + pad3(millis) + "s"@
    } else if millis > 0 {
        dec_chars(millis) + "."@ + pad3(micros) + "ms"@
    } else if micros > 0 {
        dec_chars(micros) + "."@ + pad3(nns) + "µs"@
    } else {
        dec_chars(subsec) + "ns"@
    }
}

/// `n` spaces.
pub open spec fn space_chars(n: nat) -> Seq<char>
    decreases n,
{
    if n == 0 {
        Seq::empty()
    } else {
        space_chars((n - 1) as nat) + " "@
    }
}

/// Appends the single decimal digit `d`.
fn push_digit(s: &mut String, d: u64)
    requires
        d < 10,
    ensures
        final(s)@ == old(s)@ + dec_digit(d as int),
{
    let c: &'static str = if d == 0 {
        "0"
    } else if d == 1 {
        "1"
    } else if d == 2 {
        "2"
    } else if d == 3 {
        "3"
    } else if d == 4 {
        "4"
    } else if d == 5 {
        "5"
    } else if d == 6 {
        "6"
    } else if d == 7 {
        "7"
    } else if d == 8 {
        "8"
    } else {
        "9"
    };
    s.append(c);
}

/// Appends `n` in decimal.
fn push_dec(s: &mut String, n: u64)
    ensures
        final(s)@ == old(s)@ + dec_chars(n as nat),
    decreases n,
{
    if n >= 10 {
        push_dec(s, n / 10);
        push_digit(s, n % 10);
        proof {
            assert(final(s)@ =~= old(s)@ + dec_chars(n as nat));
        }
    } else {
        push_digit(s, n);
    }
}

/// Appends `n` in decimal, zero-padded to three digits.
fn push_pad3(s: &mut String, n: u64)
    requires
        n < 1000,
    ensures
        final(s)@ == old(s)@ + pad3(n as nat),
{
    if n >= 100 {
    } else if n >= 10 {
        s.append("0");
    } else {
        s.append("00");
    }
    push_dec(s, n);
    proof {
        assert(final(s)@ =~= old(s)@ + pad3(n as nat));
    }
}

/// Renders a duration of `time` nanoseconds as `duration_text` spells it:
/// the largest non-empty unit, then the next smaller one as three
/// zero-padded decimals.
pub fn debug_duration(time: u64) -> (r: String)
    ensures
        r@ == duration_text(time as nat),
{
    let secs: u64 = time / 1_000_000_000;
    let subsec: u64 = time % 1_000_000_000;
    let millis: u64 = subsec / 1_000_000;
    let micros: u64 = (subsec / 1_000) % 1_000;
    let nns: u64 = subsec % 1_000;
    let mut r = String::new();
    if secs != 0 {
        push_dec(&mut r, secs);
        r.append(".");
        push_pad3(&mut r, millis);
        r.append("s");
    } else if millis > 0 {
        push_dec(&mut r, millis);
        r.append(".");
        push_pad3(&mut r, micros);
        r.append("ms");
    } else if micros > 0 {
        push_dec(&mut r, micros);
        r.append(".");
        push_pad3(&mut r, nns);
        r.append("µs");
    } else {
        push_dec(&mut r, subsec);
        r.append("ns");
    }
    proof {
        assert(r@ =~= duration_text(time as nat));
    }
    r
}

/// A run of `indent_amount` plain spaces, the indentation of traced
/// messages.
pub fn compute_indent_whitespace(indent_amount: usize) -> (r: String)
    ensures
        r@ == space_chars(indent_amount as nat),
{
    let mut r = String::new();
    let mut i: usize = 0;
    while i < indent_amount
        invariant
            i <= indent_amount,
            r@ == space_chars(i as nat),
        decreases indent_amount - i,
    {
        r.append(" ");
        i = i + 1;
    }
    r
}

} // verus!
