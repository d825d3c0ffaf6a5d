//! A bandwidth in megabits per second with one decimal, as
//! `format!("{:.1}", bits as f64 / 1_000_000.0)` prints it: the conversion
//! to `f64`, the division and the rounding of the printed tenth, each
//! carried out exactly on integers.

use vstd::prelude::*;
use crate::binary64::{
    f64_quotient, quotient_of, round_half_even, round_half_even_exec, two_to, two_to_exec,
    u64_as_f64, u64_as_f64_exec,
};

verus! {

/// `bits as f64 / 1_000_000.0`, as `(m, k)` with the value `m / 2^k`.
pub open spec fn mbps_f64(bits: u64) -> (nat, nat) {
    f64_quotient(u64_as_f64(bits), 1_000_000)
}

/// The tenths that `{:.1}` prints of `bits as f64 / 1_000_000.0`: the exact
/// value of that `f64` times ten, rounded to the nearest integer, an exact
/// half to the even one.
pub open spec fn mbps_tenths(bits: u64) -> nat {
    let (m, k) = mbps_f64(bits);
    round_half_even(10 * m, two_to(k))
}

/// The tenths of a megabit per second that the label of a bandwidth of
/// `bits` bits per second shows (see `mbps_tenths`).
pub fn mbps_tenths_of(bits: u64) -> (t: u64)
    ensures
        t == mbps_tenths(bits),
{
    let x = u64_as_f64_exec(bits);
    let (m, k) = quotient_of(x, 1_000_000);
    let p = two_to_exec(k);
    let t = round_half_even_exec(10 * m, p);
    t as u64
}

} // verus!
