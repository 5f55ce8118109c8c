//! Validation rules of the body-mass-index calculator.
//!
//! The index itself is a quotient of floating-point numbers and is computed
//! by the caller. What is decided here is whether a pair of measurements is
//! accepted, which error is reported when it is not, and by which factor the
//! quotient is scaled for the chosen unit system.

use vstd::prelude::*;

verus! {

/// Scaling factor that brings pounds per square inch onto the metric scale.
pub const IMPERIAL_FACTOR: u16 = 703;

/// Why a pair of measurements was refused.
#[derive(Debug, Clone, Copy, PartialEq, Eq, Structural)]
pub enum CalculationError {
    /// The height is zero or negative.
    NotPositiveHeight,
    /// The weight is zero or negative.
    NotPositiveWeight,
}

impl CalculationError {
    /// The fixed, user-facing message of this error.
    pub open spec fn message(self) -> Seq<char> {
        match self {
            CalculationError::NotPositiveHeight => "Height must be a positive number."@,
            CalculationError::NotPositiveWeight => "Weight must be a positive number."@,
        }
    }

    /// Renders the error as the text shown to the user.
    pub fn to_string(&self) -> (text: String)
        ensures
            text@ == self.message(),
    {
        match self {
            CalculationError::NotPositiveHeight => "Height must be a positive number.".to_owned(),
            CalculationError::NotPositiveWeight => "Weight must be a positive number.".to_owned(),
        }
    }
}

/// Accepts or refuses a pair of measurements, given for each of them whether
/// it is at most zero.
///
/// The height is judged first: when both measurements are at most zero, the
/// error names the height.
pub fn check_measurements(height_at_most_zero: bool, weight_at_most_zero: bool) -> (outcome: Result<
    (),
    CalculationError,
>)
    ensures
        height_at_most_zero ==> outcome == Err::<(), CalculationError>(
            CalculationError::NotPositiveHeight,
        ),
        !height_at_most_zero && weight_at_most_zero ==> outcome == Err::<(), CalculationError>(
            CalculationError::NotPositiveWeight,
        ),
        !height_at_most_zero && !weight_at_most_zero ==> outcome == Ok::<(), CalculationError>(()),
{
    if height_at_most_zero {
        return Err(CalculationError::NotPositiveHeight);
    }
    if weight_at_most_zero {
        return Err(CalculationError::NotPositiveWeight);
    }
    Ok(())
}

/// The factor by which weight over squared height is multiplied: 703 for
/// inches and pounds, 1 for metres and kilograms.
pub fn unit_factor(is_imperial: bool) -> (factor: u16)
    ensures
        factor == if is_imperial { IMPERIAL_FACTOR } else { 1u16 },
{
    if is_imperial {
        IMPERIAL_FACTOR
    } else {
        1
    }
}

} // verus!
