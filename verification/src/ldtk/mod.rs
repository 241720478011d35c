//! The LDtk level compiler: schema model, validation, conversion.

pub mod bootstrap;
pub mod cli;
pub mod converter;
pub mod fields;
pub mod merge;
pub mod schema;
pub mod text;
pub mod validator;
