//! Example contract actions: the computations a dispatch layer exposes
//! through the codec boundary.  Argument decoding and console output stay
//! with the caller.

use vstd::prelude::*;

verus! {

/// The greeting the `hi` action emits; the caller writes it to its console.
pub fn hi() -> (r: String)
    ensures
        r@ == "hello!!!"@,
{
    "hello!!!".to_owned()
}

/// The sum of two action arguments.
pub fn add(a: i32, b: i32) -> (r: i32)
    requires
        -0x8000_0000 <= a + b < 0x8000_0000,
    ensures
        r == a + b,
{
    a + b
}

/// The product of two action arguments.
pub fn multiply(a: i32, b: i32) -> (r: i32)
    requires
        -0x8000_0000 <= a * b < 0x8000_0000,
    ensures
        r == a * b,
{
    a * b
}

} // verus!
