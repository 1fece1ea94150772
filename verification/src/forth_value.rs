//! The instructions the interpreter runs.

use vstd::prelude::*;
use crate::operations::forth_operation::{ForthOperation, OperationModel};
use crate::words::word::{ForthWord, WordModel};

verus! {

/// Anything a token can resolve to: a built-in operation, something that
/// concerns a word, or a number.
#[derive(Debug)]
pub enum ForthValue {
    Operation(ForthOperation),
    Word(ForthWord),
    Number(i16),
}

/// The mathematical value of a [`ForthValue`].
pub enum ValueModel {
    Operation(OperationModel),
    Word(WordModel),
    Number(i16),
}

impl View for ForthValue {
    type V = ValueModel;

    open spec fn view(&self) -> ValueModel {
        match self {
            ForthValue::Operation(op) => ValueModel::Operation(op@),
            ForthValue::Word(word) => ValueModel::Word(word@),
            ForthValue::Number(n) => ValueModel::Number(*n),
        }
    }
}

impl DeepView for ForthValue {
    type V = ValueModel;

    open spec fn deep_view(&self) -> ValueModel {
        self@
    }
}

impl ValueModel {
    /// Whether the value is one of the markers `:` and `;`, which delimit a
    /// definition and never belong to one.
    pub open spec fn is_marker(self) -> bool {
        self == ValueModel::Word(WordModel::Definition) || self == ValueModel::Word(WordModel::End)
    }
}

} // verus!
