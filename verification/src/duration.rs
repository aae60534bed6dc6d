//! Rendering of an elapsed time for people.

use crate::text::{decimal, push_decimal};
use vstd::prelude::*;
use vstd::string::StringExecFns;

verus! {

/// The power of two by which `ms / 1000` is scaled so that its
/// double-precision significand becomes a whole number divided by 125, for
/// `1000 <= ms < 64000`.
pub open spec fn significand_scale(ms: nat) -> nat {
    if ms < 2000 {
        0x2_0000_0000_0000
    } else if ms < 4000 {
        0x1_0000_0000_0000
    } else if ms < 8000 {
        0x8000_0000_0000
    } else if ms < 16000 {
        0x4000_0000_0000
    } else if ms < 32000 {
        0x2000_0000_0000
    } else {
        0x1000_0000_0000
    }
}

/// The number of tenths of a second shown for `ms` milliseconds, for
/// `1000 <= ms < 60000`: the quotient `ms / 1000` is taken in double
/// precision and then rounded to one decimal, ties to even.
///
/// Away from a decimal tie this is ordinary rounding. At a tie
/// (`ms % 100 == 50`) the double nearest to the quotient decides: it lies
/// below the quotient when the scaled quotient leaves a remainder of 1 to 62
/// on division by 125, above it for 63 to 124, and on it for 0.
pub open spec fn shown_tenths(ms: nat) -> nat {
    let whole = ms / 100;
    let rest = ms % 100;
    let lean = (ms * significand_scale(ms)) % 125;
    if rest < 50 {
        whole
    } else if rest > 50 {
        whole + 1
    } else if lean == 0 {
        if whole % 2 == 0 {
            whole
        } else {
            whole + 1
        }
    } else if lean <= 62 {
        whole
    } else {
        whole + 1
    }
}

/// The text for an elapsed time of `ms` milliseconds: milliseconds below one
/// second, seconds with one decimal below one minute, whole minutes and
/// seconds from there on.
pub open spec fn duration_text(ms: nat) -> Seq<char> {
    if ms < 1000 {
        decimal(ms) + "ms"@
    } else if ms < 60000 {
        decimal(shown_tenths(ms) / 10) + "."@ + decimal(shown_tenths(ms) % 10) + "s"@
    } else {
        decimal(ms / 60000) + "m "@ + decimal(ms % 60000 / 1000) + "s"@
    }
}

/// Computes [`shown_tenths`].
fn tenths_of_second(ms: u128) -> (tenths: u128)
    requires
        1000 <= ms < 60000,
    ensures
        tenths == shown_tenths(ms as nat),
{
    let whole: u128 = ms / 100;
    let rest: u128 = ms % 100;
    let scale: u128 = if ms < 2000 {
        0x2_0000_0000_0000
    } else if ms < 4000 {
        0x1_0000_0000_0000
    } else if ms < 8000 {
        0x8000_0000_0000
    } else if ms < 16000 {
        0x4000_0000_0000
    } else if ms < 32000 {
        0x2000_0000_0000
    } else {
        0x1000_0000_0000
    };
    assert(ms * scale <= 60000 * 0x2_0000_0000_0000) by (nonlinear_arith)
        requires
            ms < 60000,
            scale <= 0x2_0000_0000_0000,
    ;
    let lean: u128 = (ms * scale) % 125;
    if rest < 50 {
        whole
    } else if rest > 50 {
        whole + 1
    } else if lean == 0 {
        if whole % 2 == 0 {
            whole
        } else {
            whole + 1
        }
    } else if lean <= 62 {
        whole
    } else {
        whole + 1
    }
}

/// Formats milliseconds into a readable duration.
pub fn format_duration(ms: u128) -> (text: String)
    ensures
        text@ == duration_text(ms as nat),
{
    let mut text = String::new();
    if ms < 1000 {
        push_decimal(&mut text, ms);
        text.append("ms");
        assert(text@ =~= duration_text(ms as nat));
    } else if ms < 60000 {
        let tenths = tenths_of_second(ms);
        push_decimal(&mut text, tenths / 10);
        text.append(".");
        push_decimal(&mut text, tenths % 10);
        text.append("s");
        assert(text@ =~= duration_text(ms as nat));
    } else {
        push_decimal(&mut text, ms / 60000);
        text.append("m ");
        push_decimal(&mut text, (ms % 60000) / 1000);
        text.append("s");
        assert(text@ =~= duration_text(ms as nat));
    }
    text
}

} // verus!
