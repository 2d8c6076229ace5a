//! A mail filter in the manner of Sieve: the compiler turns the tokens of a
//! script into tests and actions, and the runtime holds them against a parsed
//! message and collects the actions that the script asks for.
//!
//! Every function states what it returns or changes, and is proved to do
//! so. What comes from the crates that parse and build mail, from the regex
//! engine and from a few functions of the standard library is taken on
//! trust, each behind one small function that says what is assumed of it.

pub mod text;
pub mod address;
pub mod mailto;
pub mod uri;
pub mod compiler;
pub mod runtime;
