use vstd::prelude::*;
use vstd::string::StringExecFns;

verus! {

/// Number of fractional decimal digits an `Amount` carries internally.
pub const AMOUNT_SCALE: u32 = 12;

/// Number of units in one whole currency unit: 10^AMOUNT_SCALE.
pub const UNITS_PER_WHOLE: u128 = 1_000_000_000_000;

/// Number of fractional decimal digits the output boundary keeps.
pub const OUTPUT_SCALE: u32 = 4;

/// Number of internal units in one step of the four-digit output grid:
/// 10^(AMOUNT_SCALE - OUTPUT_SCALE).
pub const UNITS_PER_OUTPUT_STEP: u128 = 100_000_000;

/// The character for one decimal digit.
pub open spec fn digit_char(d: int) -> char {
    ((d + 48) as u8) as char
}

/// The decimal digits of `n`, most significant first, no leading zeros
/// (a single zero for zero).
pub open spec fn dec_digits(n: nat) -> Seq<char>
    decreases n,
{
    if n < 10 {
        seq![digit_char(n as int)]
    } else {
        dec_digits(n / 10).push(digit_char((n % 10) as int))
    }
}

/// The amount truncated toward zero to the four-digit output grid,
/// counted in 1/10000 steps of a whole unit: everything past the fourth
/// fractional digit is dropped, and what is dropped is less than one step.
pub open spec fn output_units(units: nat) -> nat {
    units / (UNITS_PER_OUTPUT_STEP as nat)
}

/// The fractional part `f` of a truncated amount (in 1/10000 steps,
/// nonzero) as decimal digits: four places, with trailing zeros stripped.
pub open spec fn frac_digits(f: nat) -> Seq<char> {
    let d3 = digit_char((f / 1000) as int);
    let d2 = digit_char(((f / 100) % 10) as int);
    let d1 = digit_char(((f / 10) % 10) as int);
    let d0 = digit_char((f % 10) as int);
    if f % 1000 == 0 {
        seq![d3]
    } else if f % 100 == 0 {
        seq![d3, d2]
    } else if f % 10 == 0 {
        seq![d3, d2, d1]
    } else {
        seq![d3, d2, d1, d0]
    }
}

/// The decimal rendering of an amount of `units` 1/10^12 units at the
/// output boundary: the amount is first truncated toward zero to four
/// fractional digits (`output_units`), then written as the whole part and,
/// if the truncated fractional part is nonzero, a point and its digits
/// with trailing zeros stripped. So one whole unit and 1.05 read "1" and
/// "1.05", and 30.293853 reads "30.2938".
pub open spec fn spec_decimal_string(units: nat) -> Seq<char> {
    let ou = output_units(units);
    let whole = ou / 10000;
    let frac = ou % 10000;
    if frac == 0 {
        dec_digits(whole)
    } else {
        dec_digits(whole) + seq!['.'] + frac_digits(frac)
    }
}

/// The string for one decimal digit.
fn digit_str(d: u64) -> (r: &'static str)
    requires
        d < 10,
    ensures
        r@ == seq![digit_char(d as int)],
{
    proof {
        reveal_strlit("0");
        reveal_strlit("1");
        reveal_strlit("2");
        reveal_strlit("3");
        reveal_strlit("4");
        reveal_strlit("5");
        reveal_strlit("6");
        reveal_strlit("7");
        reveal_strlit("8");
        reveal_strlit("9");
    }
    if d == 0 {
        "0"
    } else if d == 1 {
        "1"
    } else if d == 2 {
        "2"
    } else if d == 3 {
        "3"
    } else if d == 4 {
        "4"
    } else if d == 5 {
        "5"
    } else if d == 6 {
        "6"
    } else if d == 7 {
        "7"
    } else if d == 8 {
        "8"
    } else {
        "9"
    }
}

/// Appends the decimal digits of `n` to `out`.
fn push_dec_digits(n: u128, out: &mut String)
    ensures
        final(out)@ == old(out)@ + dec_digits(n as nat),
    decreases n,
{
    if n < 10 {
        out.append(digit_str(n as u64));
        proof {
            assert(out@ =~= old(out)@ + dec_digits(n as nat));
        }
    } else {
        push_dec_digits(n / 10, out);
        out.append(digit_str((n % 10) as u64));
        proof {
            assert(out@ =~= old(out)@ + dec_digits(n as nat));
        }
    }
}

/// A nonnegative fixed-point decimal amount of money, stored as a count of
/// 1/10^12 currency units — finer than any input record's precision, so
/// the engine computes on what it was given. Addition, subtraction and
/// comparison on amounts are exact integer arithmetic; precision is given
/// up only where `to_decimal_string` truncates at the output boundary.
#[derive(Clone, Copy, Debug, PartialEq, Eq, Structural)]
pub struct Amount {
    /// The amount, counted in units of 1/10^12.
    pub units: u128,
}

impl Amount {
    /// The amount as a mathematical integer count of 1/10^12 units.
    pub open spec fn as_int(self) -> int {
        self.units as int
    }

    /// The zero amount.
    pub fn zero() -> (r: Amount)
        ensures
            r.units == 0,
    {
        Amount { units: 0 }
    }

    /// The amount worth `units` counts of 1/10^12 of the currency unit,
    /// so `from_units(1_050_000_000_000)` is 1.05.
    pub fn from_units(units: u128) -> (r: Amount)
        ensures
            r.units == units,
    {
        Amount { units }
    }

    /// Renders the amount for the output boundary: truncated toward zero
    /// to at most four fractional digits — the dropped remainder is less
    /// than 0.0001, and the amount itself is untouched — with no trailing
    /// fractional zeros. One whole unit and 1.05 read "1" and "1.05";
    /// 30.293853 reads "30.2938".
    pub fn to_decimal_string(&self) -> (r: String)
        ensures
            r@ == spec_decimal_string(self.units as nat),
            output_units(self.units as nat) * (UNITS_PER_OUTPUT_STEP as nat) <= self.units,
            self.units < (output_units(self.units as nat) + 1) * (UNITS_PER_OUTPUT_STEP as nat),
    {
        let ou = self.units / UNITS_PER_OUTPUT_STEP;
        let whole = ou / 10000;
        let frac = (ou % 10000) as u64;
        let mut out = String::new();
        push_dec_digits(whole, &mut out);
        if frac > 0 {
            proof {
                reveal_strlit(".");
            }
            out.append(".");
            out.append(digit_str(frac / 1000));
            if frac % 1000 != 0 {
                out.append(digit_str((frac / 100) % 10));
                if frac % 100 != 0 {
                    out.append(digit_str((frac / 10) % 10));
                    if frac % 10 != 0 {
                        out.append(digit_str(frac % 10));
                    }
                }
            }
            proof {
                assert(out@ =~= spec_decimal_string(self.units as nat));
            }
        } else {
            proof {
                assert(out@ =~= spec_decimal_string(self.units as nat));
            }
        }
        out
    }
}

impl Default for Amount {
    /// The default amount is zero.
    fn default() -> (r: Amount)
        ensures
            r.units == 0,
    {
        Amount { units: 0 }
    }
}

} // verus!
