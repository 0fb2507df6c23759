use enum_traits::analyzer::{
    analyze, resolve_representation, scan_reprs, summarize_discriminants, validate_continuity,
    validate_fieldlessness, validate_interop_header, validate_zero_basing,
};
use enum_traits::decl::{
    AnalysisError, Attribute, DeclarationData, DiscriminantExpr, EnumDeclaration, ErrorKind,
    ErrorLocation, TraitRequest, ValidationSet, Variant, VariantFields,
};
use enum_traits::synthesizer::validation_set_for;
use num_bigint::BigInt;

fn unit_variant(name: &str) -> Variant {
    Variant { name: name.to_string(), fields: VariantFields::Unit, discriminant: None }
}

fn lit_variant(name: &str, digits: &str) -> Variant {
    Variant {
        name: name.to_string(),
        fields: VariantFields::Unit,
        discriminant: Some(DiscriminantExpr::IntLiteral(digits.to_string())),
    }
}

fn repr_attr(ids: &[&str]) -> Attribute {
    Attribute {
        name: "repr".to_string(),
        idents: Some(ids.iter().map(|s| s.to_string()).collect()),
    }
}

fn decl(attrs: Vec<Attribute>, variants: Vec<Variant>) -> EnumDeclaration {
    EnumDeclaration {
        name: "Color".to_string(),
        impl_generics: String::new(),
        ty_generics: String::new(),
        where_clause: String::new(),
        attributes: attrs,
        data: DeclarationData::Enumeration(variants),
    }
}

fn no_checks() -> ValidationSet {
    ValidationSet {
        representation: false,
        interop_header: false,
        continuity: false,
        zero_basing: false,
        fieldlessness: false,
    }
}

fn bigs(ns: &[i64]) -> Vec<BigInt> {
    ns.iter().map(|&n| BigInt::from(n)).collect()
}

#[test]
fn implicit_discriminants_count_up() {
    let d = decl(vec![], vec![unit_variant("A"), unit_variant("B"), unit_variant("C")]);
    let a = analyze(&d, no_checks()).unwrap();
    assert_eq!(a.values, bigs(&[0, 1, 2]));
    assert_eq!(a.count, 3);
    assert_eq!(a.values.len(), a.count);
}

#[test]
fn values_length_equals_count() {
    let d = decl(
        vec![],
        vec![lit_variant("A", "7"), unit_variant("B"), lit_variant("C", "3"), unit_variant("D")],
    );
    let a = analyze(&d, no_checks()).unwrap();
    assert_eq!(a.values, bigs(&[7, 8, 3, 4]));
    assert_eq!(a.count, 4);
    assert_eq!(a.values.len(), 4);
}

#[test]
fn bit_masks_are_or_and_reductions() {
    let d = decl(
        vec![],
        vec![lit_variant("A", "1"), lit_variant("B", "2"), lit_variant("C", "4")],
    );
    let a = analyze(&d, no_checks()).unwrap();
    assert_eq!(a.ever_enabled_bits, BigInt::from(7));
    assert_eq!(a.always_enabled_bits, Some(BigInt::from(0)));

    let d2 = decl(vec![], vec![lit_variant("A", "3"), lit_variant("B", "7")]);
    let a2 = analyze(&d2, no_checks()).unwrap();
    assert_eq!(a2.ever_enabled_bits, BigInt::from(7));
    assert_eq!(a2.always_enabled_bits, Some(BigInt::from(3)));
}

#[test]
fn empty_set_masks_and_bounds() {
    let d = decl(vec![repr_attr(&["u8"])], vec![]);
    let a = analyze(&d, no_checks()).unwrap();
    assert_eq!(a.ever_enabled_bits, BigInt::from(0));
    assert_eq!(a.always_enabled_bits, None);
    assert_eq!(a.min, None);
    assert_eq!(a.max, None);
    assert_eq!(a.count, 0);
}

#[test]
fn min_max_are_numeric_bounds() {
    let d = decl(
        vec![],
        vec![lit_variant("A", "5"), unit_variant("B"), lit_variant("C", "2"), unit_variant("D")],
    );
    let a = analyze(&d, no_checks()).unwrap();
    assert_eq!(a.values, bigs(&[5, 6, 2, 3]));
    assert_eq!(a.min, Some(BigInt::from(2)));
    assert_eq!(a.max, Some(BigInt::from(6)));
}

#[test]
fn continuity_accepts_consecutive() {
    assert!(validate_continuity(&bigs(&[0, 1, 2, 3])).is_ok());
    assert!(validate_continuity(&bigs(&[])).is_ok());
    assert!(validate_continuity(&bigs(&[9])).is_ok());
}

#[test]
fn continuity_rejects_gap_and_cites_index() {
    let e = validate_continuity(&bigs(&[0, 1, 3])).unwrap_err();
    assert_eq!(e.kind, ErrorKind::DiscontinuousDiscriminants);
    assert_eq!(e.location, ErrorLocation::AtVariant(2));
}

#[test]
fn zero_basing_accepts_zero_led_and_empty() {
    assert!(validate_zero_basing(&bigs(&[0, 5, 9])).is_ok());
    assert!(validate_zero_basing(&bigs(&[])).is_ok());
}

#[test]
fn zero_basing_rejects_nonzero_lead() {
    let e = validate_zero_basing(&bigs(&[1, 2, 3])).unwrap_err();
    assert_eq!(e.kind, ErrorKind::NonZeroFirstDiscriminant);
    assert_eq!(e.location, ErrorLocation::AtVariant(0));
}

#[test]
fn fieldlessness_accepts_all_unit() {
    let vs = vec![unit_variant("A"), unit_variant("B")];
    assert!(validate_fieldlessness(&vs).is_ok());
}

#[test]
fn fieldlessness_rejects_and_cites_variant() {
    let mut vs = vec![unit_variant("A"), unit_variant("B"), unit_variant("C")];
    vs[1].fields = VariantFields::Tuple;
    let e = validate_fieldlessness(&vs).unwrap_err();
    assert_eq!(e.kind, ErrorKind::NonFieldlessVariant);
    assert_eq!(e.location, ErrorLocation::AtVariant(1));

    let mut vs2 = vec![unit_variant("A"), unit_variant("B")];
    vs2[0].fields = VariantFields::Struct;
    let e2 = validate_fieldlessness(&vs2).unwrap_err();
    assert_eq!(e2.location, ErrorLocation::AtVariant(0));
}

#[test]
fn representation_resolves_first_primitive() {
    let d = decl(vec![repr_attr(&["u8"])], vec![unit_variant("A")]);
    let a = analyze(&d, validation_set_for(TraitRequest::DiscriminantValues)).unwrap();
    assert_eq!(a.representation, Some("u8".to_string()));

    let d2 = decl(vec![repr_attr(&["C", "u16"])], vec![unit_variant("A")]);
    let a2 = analyze(&d2, validation_set_for(TraitRequest::DiscriminantValues)).unwrap();
    assert_eq!(a2.representation, Some("u16".to_string()));
}

#[test]
fn representation_flattens_several_repr_attributes() {
    let d = decl(vec![repr_attr(&["C"]), repr_attr(&["u32"])], vec![unit_variant("A")]);
    let a = analyze(&d, validation_set_for(TraitRequest::DiscriminantValues)).unwrap();
    assert_eq!(a.representation, Some("u32".to_string()));

    let ids = scan_reprs(&d.attributes).unwrap();
    assert_eq!(ids, vec!["C".to_string(), "u32".to_string()]);
}

#[test]
fn representation_missing_is_rejected() {
    let mut v = unit_variant("A");
    v.fields = VariantFields::Tuple;
    let d = decl(vec![], vec![v]);
    let e = analyze(&d, validation_set_for(TraitRequest::DiscriminantValues)).unwrap_err();
    assert_eq!(e.kind, ErrorKind::MissingOrInvalidRepresentation);
    assert_eq!(e.location, ErrorLocation::Declaration);

    let mut v2 = unit_variant("A");
    v2.fields = VariantFields::Tuple;
    let d2 = decl(vec![repr_attr(&["C"])], vec![v2]);
    let e2 = analyze(&d2, validation_set_for(TraitRequest::DiscriminantValues)).unwrap_err();
    assert_eq!(e2.kind, ErrorKind::MissingOrInvalidRepresentation);
}

#[test]
fn resolve_representation_skips_non_primitives() {
    let ids = vec!["C".to_string(), "packed".to_string(), "i64".to_string()];
    assert_eq!(resolve_representation(&ids), Some("i64".to_string()));
    let none = vec!["C".to_string(), "packed".to_string()];
    assert_eq!(resolve_representation(&none), None);
    assert_eq!(resolve_representation(&vec![]), None);
}

#[test]
fn explicit_literal_interleaving() {
    let d = decl(
        vec![repr_attr(&["i32"])],
        vec![lit_variant("A", "5"), unit_variant("B"), lit_variant("C", "2"), unit_variant("D")],
    );
    let a = analyze(&d, no_checks()).unwrap();
    assert_eq!(a.values, bigs(&[5, 6, 2, 3]));

    // Feeding the same sequence back through continuity validation must
    // reject it: 5 to 6 continues, 6 to 2 does not.
    let e = validate_continuity(&a.values).unwrap_err();
    assert_eq!(e.kind, ErrorKind::DiscontinuousDiscriminants);
    assert_eq!(e.location, ErrorLocation::AtVariant(2));
}

#[test]
fn interop_header_accepts_c_marker_or_fieldless() {
    let mut v = unit_variant("A");
    v.fields = VariantFields::Tuple;
    let with_c = decl(vec![repr_attr(&["C"])], vec![v.clone()]);
    let checks = validation_set_for(TraitRequest::DiscriminantHeaded);
    assert!(analyze(&with_c, checks).is_ok());

    let fieldless = decl(vec![], vec![unit_variant("A"), unit_variant("B")]);
    assert!(analyze(&fieldless, checks).is_ok());

    let neither = decl(vec![repr_attr(&["u8"])], vec![v]);
    let e = analyze(&neither, checks).unwrap_err();
    assert_eq!(e.kind, ErrorKind::MissingInteropLayout);
    assert_eq!(e.location, ErrorLocation::Declaration);
}

#[test]
fn interop_header_direct() {
    let idents = vec!["u8".to_string(), "C".to_string()];
    let vs = vec![];
    assert!(validate_interop_header(&idents, &vs).is_ok());
    let mut tup = unit_variant("A");
    tup.fields = VariantFields::Tuple;
    let e = validate_interop_header(&vec!["u8".to_string()], &vec![tup]).unwrap_err();
    assert_eq!(e.kind, ErrorKind::MissingInteropLayout);
}

#[test]
fn not_an_enum_is_rejected() {
    let d = EnumDeclaration {
        name: "S".to_string(),
        impl_generics: String::new(),
        ty_generics: String::new(),
        where_clause: String::new(),
        attributes: vec![],
        data: DeclarationData::Structure,
    };
    let e = analyze(&d, no_checks()).unwrap_err();
    assert_eq!(e.kind, ErrorKind::NotAnEnum);
    assert_eq!(e.location, ErrorLocation::Declaration);
    assert_eq!(e.message(), "expected enum".to_string());

    let u = EnumDeclaration { data: DeclarationData::Union, ..d };
    assert_eq!(analyze(&u, no_checks()).unwrap_err().kind, ErrorKind::NotAnEnum);
}

#[test]
fn malformed_repr_is_rejected() {
    let bad = Attribute { name: "repr".to_string(), idents: None };
    let d = decl(vec![bad], vec![unit_variant("A")]);
    let e = analyze(&d, no_checks()).unwrap_err();
    assert_eq!(e.kind, ErrorKind::MalformedReprAttribute);
    assert_eq!(e.location, ErrorLocation::Declaration);

    // A non-repr attribute without an identifier list is no error.
    let doc = Attribute { name: "derive".to_string(), idents: None };
    let d2 = decl(vec![doc], vec![unit_variant("A")]);
    assert!(analyze(&d2, no_checks()).is_ok());
}

#[test]
fn non_literal_discriminant_is_rejected() {
    let bad = Variant {
        name: "B".to_string(),
        fields: VariantFields::Unit,
        discriminant: Some(DiscriminantExpr::Unsupported),
    };
    let d = decl(vec![], vec![unit_variant("A"), bad]);
    let e = analyze(&d, no_checks()).unwrap_err();
    assert_eq!(e.kind, ErrorKind::NonLiteralDiscriminant);
    assert_eq!(e.location, ErrorLocation::AtVariant(1));

    let not_digits = decl(vec![], vec![lit_variant("A", "0x1f")]);
    let e2 = analyze(&not_digits, no_checks()).unwrap_err();
    assert_eq!(e2.kind, ErrorKind::NonLiteralDiscriminant);
    assert_eq!(e2.location, ErrorLocation::AtVariant(0));

    let empty_digits = decl(vec![], vec![lit_variant("A", "")]);
    assert_eq!(
        analyze(&empty_digits, no_checks()).unwrap_err().kind,
        ErrorKind::NonLiteralDiscriminant
    );
}

#[test]
fn wide_discriminants_keep_full_precision() {
    let max_u128 = "340282366920938463463374607431768211455";
    let d = decl(vec![repr_attr(&["u128"])], vec![lit_variant("A", max_u128), unit_variant("B")]);
    let a = analyze(&d, no_checks()).unwrap();
    let lo: BigInt = max_u128.parse().unwrap();
    let hi: BigInt = "340282366920938463463374607431768211456".parse().unwrap();
    assert_eq!(a.values, vec![lo.clone(), hi.clone()]);
    assert_eq!(a.min, Some(lo));
    assert_eq!(a.max, Some(hi));
}

#[test]
fn summarize_rejects_at_first_invalid_variant() {
    let vs = vec![unit_variant("A"), lit_variant("B", "x"), lit_variant("C", "y")];
    let e = summarize_discriminants(&vs).unwrap_err();
    assert_eq!(e.kind, ErrorKind::NonLiteralDiscriminant);
    assert_eq!(e.location, ErrorLocation::AtVariant(1));
}

#[test]
fn error_messages_describe_each_kind() {
    let e = AnalysisError {
        kind: ErrorKind::DiscontinuousDiscriminants,
        location: ErrorLocation::AtVariant(2),
    };
    assert_eq!(e.message(), "discontinuous discriminants".to_string());
    let z = AnalysisError {
        kind: ErrorKind::NonZeroFirstDiscriminant,
        location: ErrorLocation::AtVariant(0),
    };
    assert_eq!(z.message(), "first discriminant must be 0, unspecified, or not exist".to_string());
    let f = AnalysisError { kind: ErrorKind::NonFieldlessVariant, location: ErrorLocation::AtVariant(0) };
    assert_eq!(f.message(), "enum must have no fields".to_string());
    let c = AnalysisError { kind: ErrorKind::MissingInteropLayout, location: ErrorLocation::Declaration };
    assert_eq!(c.message(), "expected repr(C)".to_string());
    let r = AnalysisError {
        kind: ErrorKind::MissingOrInvalidRepresentation,
        location: ErrorLocation::Declaration,
    };
    assert_eq!(
        r.message(),
        "enum must have a repr( ) attribute of a ::std::primitive type".to_string()
    );
}
