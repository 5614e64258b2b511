//! Makes a value of a user type callable with call syntax: the attribute input
//! (an `impl` block holding one `&self` method) is parsed from a token tree and
//! expanded into the method itself and a `Deref` impl whose target is a
//! closure type.
pub mod expand;
pub mod parse;
pub mod syntax;
pub mod token;

pub use expand::{
    closure_params, deref_header, deref_impl, expand, fn_target, forwarded_args, forwarding_impl,
    hackfn, return_part, Expansion,
};
pub use parse::{parse_declaration, Declaration, ErrorKind, Param, ParseError, Place, ReceiverIssue};
pub use token::{render, Delim, Tok};
