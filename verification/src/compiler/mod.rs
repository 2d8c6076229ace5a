//! The compiler's side of the actions: tokens in, instructions out.

pub mod error;
pub mod tokens;
pub mod state;
pub mod redirect;
pub mod convert;
pub mod notify;
pub mod predicates;
