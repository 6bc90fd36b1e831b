//! Normalization of raw annotation text into parsed nodes, through syn's
//! attribute-meta grammar. Parsing itself is syn's work and is trusted; the
//! fail-fast batch walk over a declaration's annotations is verified.

use vstd::prelude::*;
use crate::meta::HelperError;

verus! {

/// Declares syn::Meta, the parsed form of one annotation, which the library
/// carries through opaquely; adapters outside the library read inside it.
#[verifier::external_type_specification]
#[verifier::external_body]
pub struct ExSynMeta(syn::Meta);

/// Declares syn::Error, the parser's own error, kept as the payload of a
/// syntax failure.
#[verifier::external_type_specification]
#[verifier::external_body]
pub struct ExSynError(syn::Error);

/// Whether syn's annotation grammar accepts `text` as one annotation node.
pub uninterp spec fn meta_parse_ok(text: Seq<char>) -> bool;

/// Relies on syn::parse_str::<syn::Meta>: parsing is a function of the text
/// alone, and it returns `Ok` exactly when the text is one well-formed
/// annotation node of syn's attribute-meta grammar.
#[verifier::external_body]
fn parse_meta_text(text: &str) -> (r: Result<syn::Meta, syn::Error>)
    ensures
        r is Ok <==> meta_parse_ok(text@),
{
    syn::parse_str::<syn::Meta>(text)
}

/// Converts each raw annotation text attached to a declaration into its
/// parsed representation. The batch fails on the first annotation that does
/// not conform to the annotation grammar, and succeeds exactly when every
/// annotation conforms; no malformed annotation is silently dropped.
pub fn parse_attrs_to_metas(attrs: &Vec<String>) -> (r: Result<Vec<syn::Meta>, HelperError>)
    ensures
        r is Ok <==> (forall|i: int| 0 <= i < attrs@.len() ==> meta_parse_ok(#[trigger] attrs@[i]@)),
        r is Ok ==> r->Ok_0@.len() == attrs@.len(),
        r is Err ==> r->Err_0 is Syntax,
{
    let mut metas: Vec<syn::Meta> = Vec::new();
    let mut i: usize = 0;
    while i < attrs.len()
        invariant
            i <= attrs@.len(),
            metas@.len() == i,
            forall|j: int| 0 <= j < i ==> meta_parse_ok(#[trigger] attrs@[j]@),
        decreases attrs@.len() - i,
    {
        match parse_meta_text(attrs[i].as_str()) {
            Result::Ok(m) => {
                metas.push(m);
            },
            Result::Err(e) => {
                return Result::Err(HelperError::Syntax(e));
            },
        }
        i = i + 1;
    }
    Result::Ok(metas)
}

} // verus!
