//! Command-line rules of the temperature converter.
//!
//! The conversion itself is floating-point arithmetic and is done by the
//! caller. What is decided here is which conversion a flag asks for, under
//! which unit the result is printed, and what the user is told when the
//! arguments are refused.

use crate::text::text_eq;
use vstd::prelude::*;

verus! {

/// The direction of a conversion.
#[derive(Debug, Clone, Copy, PartialEq, Eq, Structural)]
pub enum Direction {
    /// From degrees Celsius to degrees Fahrenheit.
    ToFahrenheit,
    /// From degrees Fahrenheit to degrees Celsius.
    ToCelsius,
}

/// The conversion that `flag` asks for. A flag names the scale of the value
/// that comes with it, in a short or a long spelling.
pub open spec fn flag_direction(flag: Seq<char>) -> Option<Direction> {
    if flag == "-c"@ || flag == "--celsius"@ {
        Some(Direction::ToFahrenheit)
    } else if flag == "-f"@ || flag == "--fahrenheit"@ {
        Some(Direction::ToCelsius)
    } else {
        None
    }
}

/// Reads a flag: the conversion it asks for, or `None` for a flag that is
/// not recognized.
pub fn parse_flag(flag: &str) -> (direction: Option<Direction>)
    ensures
        direction == flag_direction(flag@),
{
    if text_eq(flag, "-c") || text_eq(flag, "--celsius") {
        Some(Direction::ToFahrenheit)
    } else if text_eq(flag, "-f") || text_eq(flag, "--fahrenheit") {
        Some(Direction::ToCelsius)
    } else {
        None
    }
}

impl Direction {
    /// The name of the unit of a converted value.
    pub open spec fn unit(self) -> Seq<char> {
        match self {
            Direction::ToFahrenheit => "fahrenheit"@,
            Direction::ToCelsius => "celsius"@,
        }
    }

    /// The label under which a converted value is printed.
    pub fn unit_label(&self) -> (label: &'static str)
        ensures
            label@ == self.unit(),
    {
        match self {
            Direction::ToFahrenheit => "fahrenheit",
            Direction::ToCelsius => "celsius",
        }
    }
}

/// The reminder of the accepted arguments that ends every error message.
pub open spec fn usage() -> Seq<char> {
    "Usage: rust-convert <arg> <val>\n\tvalid args: --celsius/-c, --fahrenheit/-f"@
}

/// Why the arguments of the converter were refused.
#[derive(Debug, PartialEq, Eq)]
pub enum ArgumentError {
    /// There were not exactly two arguments, a flag and a value.
    IncorrectUsage,
    /// The value is not a number.
    ValueParse { value: String },
    /// The flag is not recognized.
    UnrecognizedFlag { flag: String },
}

impl ArgumentError {
    /// The user-facing message of this error: what was wrong, then the
    /// reminder of the accepted arguments on a line of its own.
    pub open spec fn message(self) -> Seq<char> {
        match self {
            ArgumentError::IncorrectUsage => "Incorrect usage.\n"@ + usage(),
            ArgumentError::ValueParse { value } => "Problem parsing value: "@ + value@ + ".\n"@
                + usage(),
            ArgumentError::UnrecognizedFlag { flag } => "Unexpected argument: "@ + flag@ + ".\n"@
                + usage(),
        }
    }

    /// Renders the error as the text shown to the user.
    pub fn to_string(&self) -> (text: String)
        ensures
            text@ == self.message(),
    {
        let mut text = String::new();
        match self {
            ArgumentError::IncorrectUsage => {
                text.append("Incorrect usage.\n");
            },
            ArgumentError::ValueParse { value } => {
                text.append("Problem parsing value: ");
                text.append(value.as_str());
                text.append(".\n");
            },
            ArgumentError::UnrecognizedFlag { flag } => {
                text.append("Unexpected argument: ");
                text.append(flag.as_str());
                text.append(".\n");
            },
        }
        text.append("Usage: rust-convert <arg> <val>\n\tvalid args: --celsius/-c, --fahrenheit/-f");
        assert(text@ =~= self.message());
        text
    }
}

/// Judges the arguments that follow the program's name: exactly two are
/// asked for, a flag and a value.
///
/// `value_is_number` tells whether the value, the second argument, reads as
/// a number; it counts only where there are two arguments. The number of
/// arguments is judged first, then the value, then the flag, and the first
/// fault found is the one reported.
pub fn interpret_arguments(args: &[String], value_is_number: bool) -> (outcome: Result<
    Direction,
    ArgumentError,
>)
    ensures
        args@.len() != 2 ==> outcome == Err::<Direction, ArgumentError>(
            ArgumentError::IncorrectUsage,
        ),
        args@.len() == 2 && !value_is_number ==> outcome == Err::<Direction, ArgumentError>(
            ArgumentError::ValueParse { value: args@[1] },
        ),
        args@.len() == 2 && value_is_number ==> outcome == match flag_direction(args@[0]@) {
            Some(direction) => Ok::<Direction, ArgumentError>(direction),
            None => Err::<Direction, ArgumentError>(
                ArgumentError::UnrecognizedFlag { flag: args@[0] },
            ),
        },
{
    if args.len() != 2 {
        return Err(ArgumentError::IncorrectUsage);
    }
    if !value_is_number {
        return Err(ArgumentError::ValueParse { value: args[1].clone() });
    }
    match parse_flag(args[0].as_str()) {
        Some(direction) => Ok(direction),
        None => Err(ArgumentError::UnrecognizedFlag { flag: args[0].clone() }),
    }
}

} // verus!
