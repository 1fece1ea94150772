//! What the interpreter hands to its surroundings.

use vstd::prelude::*;
use crate::errors::ForthError;

verus! {

/// One line for the console: something a program printed, or a failure
/// that the interpreter reports.
#[derive(Debug, PartialEq)]
pub enum Effect {
    /// A number to print in decimal.
    Number(i16),
    /// A character to print, given by its code.
    Character(u8),
    /// A line break.
    NewLine,
    /// A text to print as it is.
    Text(String),
    /// A failure to report.
    Failure(ForthError),
}

/// The mathematical value of an [`Effect`].
pub enum EffectModel {
    Number(i16),
    Character(u8),
    NewLine,
    Text(Seq<char>),
    Failure(ForthError),
}

impl View for Effect {
    type V = EffectModel;

    open spec fn view(&self) -> EffectModel {
        match self {
            Effect::Number(n) => EffectModel::Number(*n),
            Effect::Character(code) => EffectModel::Character(*code),
            Effect::NewLine => EffectModel::NewLine,
            Effect::Text(text) => EffectModel::Text(text@),
            Effect::Failure(error) => EffectModel::Failure(*error),
        }
    }
}

impl DeepView for Effect {
    type V = EffectModel;

    open spec fn deep_view(&self) -> EffectModel {
        self@
    }
}

/// The log with the failure of `result` added, if it holds one.
pub open spec fn reported(log: Seq<EffectModel>, result: Result<(), ForthError>) -> Seq<EffectModel> {
    match result {
        Ok(_) => log,
        Err(error) => log.push(EffectModel::Failure(error)),
    }
}

/// Adds the failure of `result` to `log`, if it holds one.
pub fn report(log: &mut Vec<Effect>, result: Result<(), ForthError>)
    ensures
        final(log).deep_view() == reported(old(log).deep_view(), result),
{
    match result {
        Ok(_) => {},
        Err(error) => {
            log.push(Effect::Failure(error));
            assert(log.deep_view() =~= old(log).deep_view().push(EffectModel::Failure(error)));
        },
    }
}

} // verus!
