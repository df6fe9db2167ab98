//! The error model: every way a run can fail, with its message.

use vstd::prelude::*;

verus! {

/// The kind of a failure, without its payload.
#[derive(Clone, Copy, Debug, PartialEq, Eq, Structural)]
pub enum ErrKind {
    /// The input does not match the dice-expression grammar.
    MalformedExpression,
    /// A numeric field of the expression does not fit its integer type.
    NumericOverflow,
    /// The expression asks for a die with no sides.
    InvalidDieSize,
    /// No expression was supplied at all.
    EmptyInput,
}

/// A fatal input error. Each variant that blames a particular
/// expression carries that expression.
#[derive(Clone, Debug)]
pub enum DiceError {
    MalformedExpression { input: String },
    NumericOverflow { input: String },
    InvalidDieSize,
    EmptyInput,
}

impl DiceError {
    /// The kind of this error.
    pub open spec fn spec_kind(self) -> ErrKind {
        match self {
            DiceError::MalformedExpression { .. } => ErrKind::MalformedExpression,
            DiceError::NumericOverflow { .. } => ErrKind::NumericOverflow,
            DiceError::InvalidDieSize => ErrKind::InvalidDieSize,
            DiceError::EmptyInput => ErrKind::EmptyInput,
        }
    }

    /// The expression this error blames, if it blames one.
    pub open spec fn spec_input(self) -> Option<Seq<char>> {
        match self {
            DiceError::MalformedExpression { input } => Some(input@),
            DiceError::NumericOverflow { input } => Some(input@),
            DiceError::InvalidDieSize => None,
            DiceError::EmptyInput => None,
        }
    }

    /// The message this error is reported with.
    pub open spec fn message_model(self) -> Seq<char> {
        match self {
            DiceError::MalformedExpression { input } => "invalid die expression: "@ + input@,
            DiceError::NumericOverflow { input } => "numeric value too large in: "@ + input@,
            DiceError::InvalidDieSize => "invalid die size: 0"@,
            DiceError::EmptyInput => "no dice supplied"@,
        }
    }

    pub fn kind(&self) -> (r: ErrKind)
        ensures
            r == self.spec_kind(),
    {
        match self {
            DiceError::MalformedExpression { .. } => ErrKind::MalformedExpression,
            DiceError::NumericOverflow { .. } => ErrKind::NumericOverflow,
            DiceError::InvalidDieSize => ErrKind::InvalidDieSize,
            DiceError::EmptyInput => ErrKind::EmptyInput,
        }
    }

    /// Render the message of this error.
    pub fn message(&self) -> (r: String)
        ensures
            r@ == self.message_model(),
    {
        match self {
            DiceError::MalformedExpression { input } => {
                let mut s = String::new();
                s.append("invalid die expression: ");
                s.append(input.as_str());
                s
            },
            DiceError::NumericOverflow { input } => {
                let mut s = String::new();
                s.append("numeric value too large in: ");
                s.append(input.as_str());
                s
            },
            DiceError::InvalidDieSize => {
                let mut s = String::new();
                s.append("invalid die size: 0");
                s
            },
            DiceError::EmptyInput => {
                let mut s = String::new();
                s.append("no dice supplied");
                s
            },
        }
    }
}

} // verus!
