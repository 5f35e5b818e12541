use vstd::prelude::*;
use vstd::string::StringExecFns;

verus! {

/// Why a script was rejected. Every kind is fatal for the run.
#[derive(Debug, Clone, Copy, PartialEq, Eq, Structural)]
pub enum ScriptError {
    /// A lexeme that no classification rule accepts, or one whose rule would
    /// look further back than there are tokens.
    Lex,
    /// An operand token is missing or is of the wrong kind for its position.
    Operand,
    /// A name that the store does not hold.
    UndefinedVariable,
    /// A name bound to a variable of the wrong tag.
    TypeMismatch,
    /// A literal that is not a decimal integer of the expected width, or a
    /// cursor position that leaves the 32-bit range.
    NumberFormat,
}

impl ScriptError {
    /// A one-line description for the person who wrote the script.
    pub fn describe(&self) -> (text: String)
        ensures
            text@ == match *self {
                ScriptError::Lex => "ERR: could not lex token"@,
                ScriptError::Operand => "ERR: improper operand provided to operator"@,
                ScriptError::UndefinedVariable => "ERR: variable is not defined"@,
                ScriptError::TypeMismatch => "ERR: variable holds a value of the wrong type"@,
                ScriptError::NumberFormat => "ERR: literal is not a number in range"@,
            },
    {
        match self {
            ScriptError::Lex => String::from_str("ERR: could not lex token"),
            ScriptError::Operand => String::from_str("ERR: improper operand provided to operator"),
            ScriptError::UndefinedVariable => String::from_str("ERR: variable is not defined"),
            ScriptError::TypeMismatch => String::from_str(
                "ERR: variable holds a value of the wrong type",
            ),
            ScriptError::NumberFormat => String::from_str("ERR: literal is not a number in range"),
        }
    }
}

} // verus!
