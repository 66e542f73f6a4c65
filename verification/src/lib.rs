//! Container operations with the semantics of a dynamic language's built-in
//! maps, sets, sequences and tuples, stated over mathematical models, beside
//! the scalar, control-flow and record functions that exercise them.
pub mod add_mult;
pub mod classes;
pub mod dict;
pub mod dictionaries;
pub mod flow_of_control;
pub mod function_calls;
pub mod ir;
pub mod lists;
pub mod mapper;
pub mod resolver;
pub mod scenarios;
pub mod sets;
pub mod strings;
pub mod traits;
pub mod tuples;
pub mod variables;
