//! The ways in which an operation on a register can be refused.

use vstd::prelude::*;

verus! {

/// Why an operation was refused. Every refusal is detected before the
/// register is touched, so a refused call leaves it as it was.
#[derive(Clone, Copy, Debug, PartialEq, Eq, Structural)]
pub enum QError {
    /// The amplitude sequence is empty, its length is not a power of two, or
    /// the length asked for does not fit in a machine word.
    InvalidLength,
    /// The state to be normalized has a norm that is not above the
    /// degeneracy threshold.
    DegenerateState,
    /// A qubit position is not below the number of qubits.
    QubitOutOfRange,
    /// The control and the target of a two-qubit gate are the same qubit.
    SameQubit,
    /// Sum or difference of registers whose amplitude sequences differ in
    /// length.
    LengthMismatch,
    /// A basis specification without any character.
    EmptyKet,
    /// A basis specification with a character other than `0`, `1`, `+`, `-`.
    UnknownSymbol,
}

/// The refusal that `r` carries, if it carries one.
pub open spec fn failure<T>(r: Result<T, QError>) -> Option<QError> {
    match r {
        Ok(_) => None,
        Err(e) => Some(e),
    }
}

impl QError {
    /// A short description of the refusal, for messages.
    pub fn message(&self) -> (text: &'static str)
        ensures
            text@ == self.message_text(),
    {
        match self {
            QError::InvalidLength => "register length must be a positive power of two",
            QError::DegenerateState => "cannot normalize a zero vector",
            QError::QubitOutOfRange => "qubit position out of range",
            QError::SameQubit => "control and target must be different qubits",
            QError::LengthMismatch => "registers differ in length",
            QError::EmptyKet => "basis specification cannot be empty",
            QError::UnknownSymbol => "basis specification holds a character other than 0, 1, +, -",
        }
    }

    /// The text that [`QError::message`] returns.
    pub open spec fn message_text(&self) -> Seq<char> {
        match self {
            QError::InvalidLength => "register length must be a positive power of two"@,
            QError::DegenerateState => "cannot normalize a zero vector"@,
            QError::QubitOutOfRange => "qubit position out of range"@,
            QError::SameQubit => "control and target must be different qubits"@,
            QError::LengthMismatch => "registers differ in length"@,
            QError::EmptyKet => "basis specification cannot be empty"@,
            QError::UnknownSymbol => "basis specification holds a character other than 0, 1, +, -"@,
        }
    }
}

} // verus!
