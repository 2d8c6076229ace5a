//! The runtime's side of the actions: a compiled action and the context of a
//! message in, output actions out.

pub mod date;
pub mod message;
pub mod context;
pub mod redirect;
pub mod notify;
pub mod comparator;
pub mod glob;
pub mod matching;
pub mod headers;
pub mod header_values;
pub mod evaluate;
pub mod dates;
