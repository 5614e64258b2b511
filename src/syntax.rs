//! What the full Rust grammar accepts, as decided by `syn` on source text.
//!
//! Each check takes the text that `token::render` makes of some trees and
//! answers whether `syn` parses the whole of it as one fragment of a kind.
//!
//! `syn` reads the text through `proc_macro2`, which would lex with the
//! compiler's lexer inside a macro expansion and with its own otherwise, and the
//! two read a few unusual texts differently. Each check therefore switches
//! `proc_macro2` to its own lexer (`proc_macro2::fallback::force`) for the one
//! call and back afterwards (`proc_macro2::fallback::unforce`): that lexer is
//! plain code that returns an error, not a panic, on text it cannot read, so
//! the answer is a function of the text alone, in every process.
use vstd::prelude::*;

verus! {

/// Whether `syn` parses the text as a type.
pub uninterp spec fn syn_type(s: Seq<char>) -> bool;

/// Whether `syn` parses the text as a generic parameter list (`<...>`, or nothing).
pub uninterp spec fn syn_generics(s: Seq<char>) -> bool;

/// Whether `syn` parses the text as a where-clause.
pub uninterp spec fn syn_where_clause(s: Seq<char>) -> bool;

/// Whether `syn` parses the text as a visibility (possibly empty).
pub uninterp spec fn syn_visibility(s: Seq<char>) -> bool;

/// Whether `syn` parses the text as a list of outer attributes.
pub uninterp spec fn syn_outer_attrs(s: Seq<char>) -> bool;

/// Whether `syn` parses the text as an identifier that is not a keyword.
pub uninterp spec fn syn_ident(s: Seq<char>) -> bool;

/// Under `proc_macro2`'s own lexer, relies on `syn::parse_str::<syn::Type>`:
/// whether the whole text is one type.
#[verifier::external_body]
pub(crate) fn is_type(s: &Vec<char>) -> (r: bool)
    ensures
        r == syn_type(s@),
{
    let text: String = s.iter().collect();
    proc_macro2::fallback::force();
    let r = syn::parse_str::<syn::Type>(&text).is_ok();
    proc_macro2::fallback::unforce();
    r
}

/// Under `proc_macro2`'s own lexer, relies on
/// `syn::parse_str::<syn::Generics>`: whether the whole text is a generic
/// parameter list.
#[verifier::external_body]
pub(crate) fn is_generics(s: &Vec<char>) -> (r: bool)
    ensures
        r == syn_generics(s@),
{
    let text: String = s.iter().collect();
    proc_macro2::fallback::force();
    let r = syn::parse_str::<syn::Generics>(&text).is_ok();
    proc_macro2::fallback::unforce();
    r
}

/// Under `proc_macro2`'s own lexer, relies on
/// `syn::parse_str::<syn::WhereClause>`: whether the whole text is a where-
/// clause.
#[verifier::external_body]
pub(crate) fn is_where_clause(s: &Vec<char>) -> (r: bool)
    ensures
        r == syn_where_clause(s@),
{
    let text: String = s.iter().collect();
    proc_macro2::fallback::force();
    let r = syn::parse_str::<syn::WhereClause>(&text).is_ok();
    proc_macro2::fallback::unforce();
    r
}

/// Under `proc_macro2`'s own lexer, relies on
/// `syn::parse_str::<syn::Visibility>`: whether the whole text is a visibility.
#[verifier::external_body]
pub(crate) fn is_visibility(s: &Vec<char>) -> (r: bool)
    ensures
        r == syn_visibility(s@),
{
    let text: String = s.iter().collect();
    proc_macro2::fallback::force();
    let r = syn::parse_str::<syn::Visibility>(&text).is_ok();
    proc_macro2::fallback::unforce();
    r
}

/// Under `proc_macro2`'s own lexer, relies on `syn::Attribute::parse_outer`,
/// run by `syn::parse::Parser::parse_str`: whether the whole text is a list of
/// outer attributes.
#[verifier::external_body]
pub(crate) fn is_outer_attrs(s: &Vec<char>) -> (r: bool)
    ensures
        r == syn_outer_attrs(s@),
{
    let text: String = s.iter().collect();
    proc_macro2::fallback::force();
    let r = syn::parse::Parser::parse_str(syn::Attribute::parse_outer, &text).is_ok();
    proc_macro2::fallback::unforce();
    r
}

/// Under `proc_macro2`'s own lexer, relies on `syn::parse_str::<syn::Ident>`:
/// whether the whole text is an identifier that is not a keyword.
#[verifier::external_body]
pub(crate) fn is_ident(s: &Vec<char>) -> (r: bool)
    ensures
        r == syn_ident(s@),
{
    let text: String = s.iter().collect();
    proc_macro2::fallback::force();
    let r = syn::parse_str::<syn::Ident>(&text).is_ok();
    proc_macro2::fallback::unforce();
    r
}

} // verus!
