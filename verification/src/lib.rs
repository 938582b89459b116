//! Decisions behind the JavaScript/TypeScript type-file generator: which
//! imports a file carries and in what order, how struct fields are laid out
//! and padded, how method parameters are converted and cleaned up, and how
//! lifetime edges are named in generated code.

pub mod order;
pub mod imports;
pub mod lifetimes;
pub mod context;
pub mod fields;
pub mod methods;
