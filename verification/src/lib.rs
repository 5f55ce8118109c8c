//! Verified cores of three small command-line tools: a temperature
//! converter, a body-mass-index calculator and a line, word and character
//! counter.
//!
//! Each module holds the decisions and computations of one tool, with
//! contracts that Verus proves. Reading arguments, files and standard input,
//! floating-point arithmetic and printing are left to the caller.

pub mod bmi;
pub mod temperature;
pub mod text;
pub mod counter;
pub mod decimal;

