use attr_helpers::{get_type_inner_type_ident, GenericArg, Ty, TyArgs, TySegment};

fn bare(name: &str) -> Ty {
    Ty::Path(vec![TySegment { ident: name.to_string(), args: TyArgs::Empty }])
}

fn wrapper(name: &str, inner: Ty) -> Ty {
    Ty::Path(vec![TySegment {
        ident: name.to_string(),
        args: TyArgs::AngleBracketed(vec![GenericArg::Type(inner)]),
    }])
}

fn last_ident(t: &Ty) -> &str {
    match t {
        Ty::Path(segments) => segments.last().unwrap().ident.as_str(),
        Ty::Other => panic!("expected a path type"),
    }
}

#[test]
fn wrapper_inner_type_is_extracted() {
    let t = wrapper("Option", bare("i32"));
    let inner = get_type_inner_type_ident(&t, "Option").unwrap();
    assert_eq!(last_ident(inner), "i32");

    let v = wrapper("Vec", bare("u8"));
    let inner_v = get_type_inner_type_ident(&v, "Vec").unwrap();
    assert_eq!(last_ident(inner_v), "u8");
}

#[test]
fn non_matching_wrapper_name_is_none() {
    let t = wrapper("Option", bare("i32"));
    assert!(get_type_inner_type_ident(&t, "Vec").is_none());
}

#[test]
fn bare_type_is_none_for_every_wrapper() {
    let t = bare("i32");
    assert!(get_type_inner_type_ident(&t, "Option").is_none());
    assert!(get_type_inner_type_ident(&t, "Vec").is_none());
    assert!(get_type_inner_type_ident(&t, "i32").is_none());
}

#[test]
fn qualified_path_matches_on_last_segment() {
    let t = Ty::Path(vec![
        TySegment { ident: "std".to_string(), args: TyArgs::Empty },
        TySegment { ident: "option".to_string(), args: TyArgs::Empty },
        TySegment {
            ident: "Option".to_string(),
            args: TyArgs::AngleBracketed(vec![GenericArg::Type(bare("String"))]),
        },
    ]);
    let inner = get_type_inner_type_ident(&t, "Option").unwrap();
    assert_eq!(last_ident(inner), "String");
}

#[test]
fn non_type_argument_is_none() {
    let t = Ty::Path(vec![TySegment {
        ident: "Ref".to_string(),
        args: TyArgs::AngleBracketed(vec![GenericArg::Other]),
    }]);
    assert!(get_type_inner_type_ident(&t, "Ref").is_none());
}

#[test]
fn two_type_arguments_are_none() {
    // the wrapper must carry exactly one angle-bracketed type argument
    let t = Ty::Path(vec![TySegment {
        ident: "Result".to_string(),
        args: TyArgs::AngleBracketed(vec![
            GenericArg::Type(bare("i32")),
            GenericArg::Type(bare("String")),
        ]),
    }]);
    assert!(get_type_inner_type_ident(&t, "Result").is_none());
}

#[test]
fn empty_argument_list_is_none() {
    let t = Ty::Path(vec![TySegment {
        ident: "Unit".to_string(),
        args: TyArgs::AngleBracketed(Vec::new()),
    }]);
    assert!(get_type_inner_type_ident(&t, "Unit").is_none());
}

#[test]
fn non_path_type_is_none() {
    assert!(get_type_inner_type_ident(&Ty::Other, "Option").is_none());
}
