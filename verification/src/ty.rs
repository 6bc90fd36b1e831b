//! A structural model of a type reference, as far as the inner-type extractor
//! reads it: a path of segments, each optionally carrying angle-bracketed
//! generic arguments.

use vstd::prelude::*;

verus! {

/// The generic arguments attached to one path segment.
pub enum TyArgs {
    /// No arguments, as in `i32`.
    Empty,
    /// Angle-bracketed arguments, as in `Option<i32>`.
    AngleBracketed(Vec<GenericArg>),
    /// Any other argument form, such as parenthesized function arguments.
    Other,
}

/// One segment of a type path, such as `Option` in `std::option::Option<T>`.
pub struct TySegment {
    pub ident: String,
    pub args: TyArgs,
}

/// A type reference: a (possibly module-qualified) path, or any other type
/// form, which the extractor does not look into.
pub enum Ty {
    Path(Vec<TySegment>),
    Other,
}

/// One angle-bracketed generic argument: a type, or anything else (a
/// lifetime, a const expression), which never matches.
pub enum GenericArg {
    Type(Ty),
    Other,
}

/// The inner type the extractor owes: the single angle-bracketed type
/// argument of the path's last segment, when that segment's identifier equals
/// `name` and it carries exactly one argument, a type; nothing in every other
/// case, a wrapper with two or more arguments included.
pub open spec fn spec_inner_type(t: Ty, name: Seq<char>) -> Option<Ty> {
    match t {
        Ty::Path(segments) => if segments@.len() == 0 {
            Option::None
        } else {
            let seg = segments@[segments@.len() - 1];
            if seg.ident@ != name {
                Option::None
            } else {
                match seg.args {
                    TyArgs::AngleBracketed(args) => if args@.len() != 1 {
                        Option::None
                    } else {
                        match args@[0] {
                            GenericArg::Type(inner) => Option::Some(inner),
                            GenericArg::Other => Option::None,
                        }
                    },
                    _ => Option::None,
                }
            }
        },
        Ty::Other => Option::None,
    }
}

/// Extracts the single generic inner type of a wrapper type: given a type
/// reference and a wrapper name such as `Option` or `Vec`, returns the type
/// argument of the last path segment when that segment's identifier equals
/// the name and it carries exactly one angle-bracketed argument, a type. A
/// mismatch, like a wrapper with two or more arguments, is a normal outcome,
/// not a failure.
pub fn get_type_inner_type_ident<'a>(type_ref: &'a Ty, type_ident_name: &str) -> (r: Option<&'a Ty>)
    ensures
        match spec_inner_type(*type_ref, type_ident_name@) {
            Option::Some(inner) => r matches Option::Some(t) && *t == inner,
            Option::None => r is None,
        },
{
    let name: String = type_ident_name.to_owned();
    match type_ref {
        Ty::Path(segments) => {
            let n = segments.len();
            if n == 0 {
                return Option::None;
            }
            let seg: &TySegment = &segments[n - 1];
            if seg.ident == name {
                match &seg.args {
                    TyArgs::AngleBracketed(args) => {
                        if args.len() != 1 {
                            return Option::None;
                        }
                        match &args[0] {
                            GenericArg::Type(inner) => Option::Some(inner),
                            GenericArg::Other => Option::None,
                        }
                    },
                    _ => Option::None,
                }
            } else {
                Option::None
            }
        },
        Ty::Other => Option::None,
    }
}

} // verus!
