//! The built-in operations as one type.

use vstd::prelude::*;
use crate::operations::arithmetic::ArithmeticOperation;
use crate::operations::boolean::BooleanOperation;
use crate::operations::conditional::ConditionalOperation;
use crate::operations::output::{OutputModel, OutputOperation};
use crate::operations::stack_type::StackOperation;

verus! {

/// A built-in operation of any family.
#[derive(Debug)]
pub enum ForthOperation {
    Arithmetic(ArithmeticOperation),
    StackTypeOp(StackOperation),
    Output(OutputOperation),
    Boolean(BooleanOperation),
    Conditional(ConditionalOperation),
}

/// The mathematical value of a [`ForthOperation`].
pub enum OperationModel {
    Arithmetic(ArithmeticOperation),
    StackTypeOp(StackOperation),
    Output(OutputModel),
    Boolean(BooleanOperation),
    Conditional(ConditionalOperation),
}

impl View for ForthOperation {
    type V = OperationModel;

    open spec fn view(&self) -> OperationModel {
        match self {
            ForthOperation::Arithmetic(op) => OperationModel::Arithmetic(*op),
            ForthOperation::StackTypeOp(op) => OperationModel::StackTypeOp(*op),
            ForthOperation::Output(op) => OperationModel::Output(op@),
            ForthOperation::Boolean(op) => OperationModel::Boolean(*op),
            ForthOperation::Conditional(op) => OperationModel::Conditional(*op),
        }
    }
}

impl DeepView for ForthOperation {
    type V = OperationModel;

    open spec fn deep_view(&self) -> OperationModel {
        self@
    }
}

} // verus!
