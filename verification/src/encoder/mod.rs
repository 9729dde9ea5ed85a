//! The encoder: definitions of a schema, built value by value and printed
//! as GraphQL.
pub mod enum_value;
pub mod string_value;
pub mod union_def;
