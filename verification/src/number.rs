//! Numbers with a fraction or an exponent. They are carried, never computed with.
use vstd::prelude::*;

verus! {

#[verifier::external_type_specification]
#[verifier::external_body]
pub struct ExNumber(serde_json::Number);

/// Specifies `serde_json::Number::clone`: the copy is the same number.
pub assume_specification[ <serde_json::Number as Clone>::clone ](
    n: &serde_json::Number,
) -> (copy: serde_json::Number)
    ensures
        copy == *n,
;

/// Whether a number is held in floating point: what `serde_json::Number::is_f64` tells.
pub uninterp spec fn in_floating_point(n: serde_json::Number) -> bool;

/// Calls `serde_json::Number::is_f64`.
#[verifier::external_body]
fn is_floating(n: &serde_json::Number) -> (floating: bool)
    ensures
        floating == in_floating_point(*n),
{
    n.is_f64()
}

/// The floating-point number that `serde_json::Number::as_f64` gives for an integer.
pub uninterp spec fn nearest_float(n: int) -> serde_json::Number;

/// Calls `serde_json::Number::as_f64` on the integer `n` and wraps the result in a number
/// again. An integer that fits in 64 bits always has one. The result is named: it is the
/// integer rounded to floating point.
#[verifier::external_body]
fn float_of_int(n: i128) -> (x: Option<serde_json::Number>)
    requires
        i64::MIN <= n <= u64::MAX,
    ensures
        x == Some(nearest_float(n as int)),
        x matches Some(f) ==> in_floating_point(f),
{
    serde_json::Number::from_i128(n).and_then(|k| k.as_f64()).and_then(serde_json::Number::from_f64)
}

/// A finite floating-point number.
#[derive(Debug)]
pub struct FiniteFloat {
    number: serde_json::Number,
}

impl View for FiniteFloat {
    type V = serde_json::Number;

    closed spec fn view(&self) -> serde_json::Number {
        self.number
    }
}

impl Clone for FiniteFloat {
    fn clone(&self) -> (copy: Self)
        ensures
            copy@ == self@,
    {
        proof {
            use_type_invariant(self);
        }
        FiniteFloat { number: self.number.clone() }
    }
}

impl FiniteFloat {
    #[verifier::type_invariant]
    spec fn floating(self) -> bool {
        in_floating_point(self.number)
    }

    /// Takes a number that is held in floating point; an integer is none.
    pub fn new(number: serde_json::Number) -> (x: Option<FiniteFloat>)
        ensures
            x is Some <==> in_floating_point(number),
            x matches Some(f) ==> f@ == number,
    {
        if is_floating(&number) {
            Some(FiniteFloat { number })
        } else {
            None
        }
    }

    /// The integer `n` in floating point.
    pub fn from_int(n: i128) -> (x: Option<FiniteFloat>)
        requires
            i64::MIN <= n <= u64::MAX,
        ensures
            x matches Some(f) && f@ == nearest_float(n as int),
    {
        match float_of_int(n) {
            Some(number) => Some(FiniteFloat { number }),
            None => None,
        }
    }

    /// The number itself.
    pub fn number(&self) -> (n: serde_json::Number)
        ensures
            n == self@,
            in_floating_point(n),
    {
        proof {
            use_type_invariant(self);
        }
        self.number.clone()
    }
}

/// A floating-point number of a request. Only a finite one has a JSON form.
#[derive(Debug)]
pub enum Float {
    Finite(FiniteFloat),
    NonFinite,
}

/// What a floating-point number of a request is: nothing where it is not finite.
impl View for Float {
    type V = Option<serde_json::Number>;

    open spec fn view(&self) -> Option<serde_json::Number> {
        match self {
            Float::Finite(x) => Some(x@),
            Float::NonFinite => None,
        }
    }
}

impl Clone for Float {
    fn clone(&self) -> (copy: Self)
        ensures
            copy@ == self@,
    {
        match self {
            Float::Finite(x) => Float::Finite(x.clone()),
            Float::NonFinite => Float::NonFinite,
        }
    }
}

} // verus!
