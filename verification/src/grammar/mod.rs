//! The grammar of GraphQL, October 2021 edition, as a recursive descent over
//! the operations of the parser. One function stands for each production;
//! each leaves the parser ready for the next and closes every node it opened.
pub(crate) mod document;
pub(crate) mod operation;
pub(crate) mod recovery;
pub(crate) mod schema;
pub(crate) mod ty;
pub(crate) mod value;
