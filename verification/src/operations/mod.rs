//! The built-in operations, one module for each family.

pub mod arithmetic;
pub mod boolean;
pub mod conditional;
pub mod forth_operation;
pub mod output;
pub mod stack_type;
