//! The discriminant analyzer: it walks the variants of a declaration once,
//! resolving each discriminant to an explicit literal value or to
//! "previous value plus one", accumulates the aggregate masks and bounds in
//! the same pass, and applies exactly the structural validations the
//! caller requested.

use vstd::prelude::*;

use crate::bignum::{
    big_and, big_clone, big_eq, big_from_digits, big_lt, big_or, big_succ, big_value, big_values,
    big_zero,
};
use crate::decl::{
    AnalysisError, Attribute, DeclarationData, DiscriminantExpr, EnumDeclaration, ErrorKind,
    ErrorLocation, ValidationSet, Variant, VariantFields, str_eq,
};
use crate::numeric::{
    and_reduce, digits_value, is_digit, is_digit_seq, lemma_digits_value_nonneg, max_reduce,
    min_reduce, or_reduce,
};
use vstd::string::StrSliceExecFns;

verus! {

/// An error value bound to its location.
pub open spec fn located(kind: ErrorKind, location: ErrorLocation) -> AnalysisError {
    AnalysisError { kind, location }
}

/// The views of a sequence of strings.
pub open spec fn string_views(s: Seq<String>) -> Seq<Seq<char>> {
    s.map_values(|x: String| x@)
}

// ------------------------------------------------------------------
// The discriminant set
// ------------------------------------------------------------------

/// True when the variant's explicit discriminant, if any, is a bare
/// decimal integer literal.
pub open spec fn discr_literal_valid(v: Variant) -> bool {
    match v.discriminant {
        Option::Some(e) => match e {
            DiscriminantExpr::IntLiteral(s) => is_digit_seq(s@),
            DiscriminantExpr::Unsupported => false,
        },
        Option::None => true,
    }
}

/// True when every variant's explicit discriminant is a decimal literal.
pub open spec fn all_discr_literals_valid(vs: Seq<Variant>) -> bool {
    forall|i: int| 0 <= i < vs.len() ==> #[trigger] discr_literal_valid(vs[i])
}

/// The index of the first variant whose explicit discriminant is not a
/// decimal literal, searching from `i`; the length when there is none.
pub open spec fn first_invalid_discr(vs: Seq<Variant>, i: int) -> int
    decreases vs.len() - i,
{
    if i < 0 || i >= vs.len() {
        i
    } else if !discr_literal_valid(vs[i]) {
        i
    } else {
        first_invalid_discr(vs, i + 1)
    }
}

/// The value one variant resolves to, given the values before it: an
/// explicit literal takes the integer it denotes; an omitted discriminant
/// takes the previous resulting value plus one, or zero at the front.
pub open spec fn variant_value(v: Variant, prefix: Seq<int>) -> int {
    match v.discriminant {
        Option::Some(e) => match e {
            DiscriminantExpr::IntLiteral(s) => digits_value(s@),
            DiscriminantExpr::Unsupported => 0,
        },
        Option::None => if prefix.len() == 0 {
            0
        } else {
            prefix.last() + 1
        },
    }
}

/// The ordered discriminant set of a variant list, one value per variant,
/// meaningful when every explicit discriminant is a decimal literal.
pub open spec fn discr_values(vs: Seq<Variant>) -> Seq<int>
    decreases vs.len(),
{
    if vs.len() == 0 {
        Seq::empty()
    } else {
        let prefix = discr_values(vs.drop_last());
        prefix.push(variant_value(vs.last(), prefix))
    }
}

/// Law: the discriminant set has one value per variant, in order.
pub proof fn lemma_discr_values_length(vs: Seq<Variant>)
    ensures
        discr_values(vs).len() == vs.len(),
    decreases vs.len(),
{
    if vs.len() > 0 {
        lemma_discr_values_length(vs.drop_last());
    }
}

/// Extending the variant list by one appends that variant's resolved value.
pub proof fn lemma_discr_values_take_step(vs: Seq<Variant>, i: int)
    requires
        0 <= i < vs.len(),
    ensures
        discr_values(vs.take(i + 1)) == discr_values(vs.take(i)).push(
            variant_value(vs[i], discr_values(vs.take(i))),
        ),
{
    assert(vs.take(i + 1).drop_last() =~= vs.take(i));
    assert(vs.take(i + 1).last() == vs[i]);
}

/// Law: when every variant omits its discriminant, the set is
/// 0, 1, ..., n-1, matching the host enumeration's own default numbering.
pub proof fn lemma_implicit_discriminants_count_up(vs: Seq<Variant>)
    requires
        forall|i: int| 0 <= i < vs.len() ==> (#[trigger] vs[i]).discriminant is None,
    ensures
        discr_values(vs) == Seq::new(vs.len(), |i: int| i),
    decreases vs.len(),
{
    lemma_discr_values_length(vs);
    if vs.len() > 0 {
        assert(forall|i: int|
            0 <= i < vs.drop_last().len() ==> (#[trigger] vs.drop_last()[i]).discriminant
                is None);
        lemma_implicit_discriminants_count_up(vs.drop_last());
        assert(vs.last().discriminant is None);
        assert(discr_values(vs) =~= Seq::new(vs.len(), |i: int| i));
    } else {
        assert(discr_values(vs) =~= Seq::new(vs.len(), |i: int| i));
    }
}

// ------------------------------------------------------------------
// Representation attributes
// ------------------------------------------------------------------

/// True when the attribute is literally named `repr`.
pub open spec fn is_repr_attr(a: Attribute) -> bool {
    a.name@ == "repr"@
}

/// True when some `repr` attribute's input did not parse as a
/// parenthesized identifier list.
pub open spec fn has_malformed_repr(attrs: Seq<Attribute>) -> bool {
    exists|i: int|
        0 <= i < attrs.len() && is_repr_attr(#[trigger] attrs[i]) && attrs[i].idents is None
}

/// The identifiers one attribute carries.
pub open spec fn attr_idents(a: Attribute) -> Seq<Seq<char>> {
    match a.idents {
        Option::Some(v) => string_views(v@),
        Option::None => Seq::empty(),
    }
}

/// The identifiers of every `repr` attribute, flattened in declaration
/// order: a declaration may carry several `repr` attributes, and all of
/// them count.
pub open spec fn repr_idents(attrs: Seq<Attribute>) -> Seq<Seq<char>>
    decreases attrs.len(),
{
    if attrs.len() == 0 {
        Seq::empty()
    } else if is_repr_attr(attrs.last()) {
        repr_idents(attrs.drop_last()) + attr_idents(attrs.last())
    } else {
        repr_idents(attrs.drop_last())
    }
}

/// The closed set of fixed-width primitive names a `repr` may resolve to.
pub open spec fn is_primitive_name(s: Seq<char>) -> bool {
    ||| s == "bool"@
    ||| s == "char"@
    ||| s == "f32"@
    ||| s == "f64"@
    ||| s == "i128"@
    ||| s == "i16"@
    ||| s == "i32"@
    ||| s == "i64"@
    ||| s == "i8"@
    ||| s == "isize"@
    ||| s == "str"@
    ||| s == "u128"@
    ||| s == "u16"@
    ||| s == "u32"@
    ||| s == "u64"@
    ||| s == "u8"@
    ||| s == "usize"@
}

/// The index of the first primitive name among the flattened identifiers,
/// searching from `i`; the length when there is none.
pub open spec fn first_primitive_index(ids: Seq<Seq<char>>, i: int) -> int
    decreases ids.len() - i,
{
    if i < 0 || i >= ids.len() {
        i
    } else if is_primitive_name(ids[i]) {
        i
    } else {
        first_primitive_index(ids, i + 1)
    }
}

/// The resolved representation primitive: the first qualifying identifier
/// across all flattened `repr` lists, if any.
pub open spec fn resolved_repr(ids: Seq<Seq<char>>) -> Option<Seq<char>> {
    if first_primitive_index(ids, 0) < ids.len() {
        Option::Some(ids[first_primitive_index(ids, 0)])
    } else {
        Option::None
    }
}

/// True when some flattened `repr` identifier is the interoperable-layout
/// marker `C`.
pub open spec fn has_interop_marker(ids: Seq<Seq<char>>) -> bool {
    exists|i: int| 0 <= i < ids.len() && #[trigger] ids[i] == "C"@
}

// ------------------------------------------------------------------
// Structural properties
// ------------------------------------------------------------------

/// True when consecutive values differ by exactly one.
pub open spec fn is_continuous(s: Seq<int>) -> bool {
    forall|i: int| 1 <= i < s.len() ==> #[trigger] s[i] == s[i - 1] + 1
}

/// The index of the first value that does not continue its predecessor,
/// searching from `i`; the length when the sequence is continuous.
pub open spec fn first_gap_index(s: Seq<int>, i: int) -> int
    decreases s.len() - i,
{
    if i < 1 || i >= s.len() {
        i
    } else if s[i] != s[i - 1] + 1 {
        i
    } else {
        first_gap_index(s, i + 1)
    }
}

/// True when the leading value is zero, or the set is empty.
pub open spec fn is_zero_based(s: Seq<int>) -> bool {
    s.len() == 0 || s[0] == 0
}

/// True when no variant carries associated data.
pub open spec fn all_fieldless(vs: Seq<Variant>) -> bool {
    forall|i: int| 0 <= i < vs.len() ==> (#[trigger] vs[i]).fields is Unit
}

/// The index of the first variant that carries associated data, searching
/// from `i`; the length when all are fieldless.
pub open spec fn first_non_unit_index(vs: Seq<Variant>, i: int) -> int
    decreases vs.len() - i,
{
    if i < 0 || i >= vs.len() {
        i
    } else if !(vs[i].fields is Unit) {
        i
    } else {
        first_non_unit_index(vs, i + 1)
    }
}

// ------------------------------------------------------------------
// The error a declaration draws, if any
// ------------------------------------------------------------------

/// The located error the analysis reports for a declaration under the
/// requested checks, or `None` when it passes. The checks run in a fixed
/// order: the declaration must be an enum; every `repr` attribute must
/// parse; every explicit discriminant must be a decimal literal; then the
/// requested validations, continuity before zero-basing before
/// fieldlessness before the interoperable-layout check, and representation
/// resolution last.
pub open spec fn analysis_error(d: EnumDeclaration, req: ValidationSet) -> Option<AnalysisError> {
    match d.data {
        DeclarationData::Enumeration(variants) => {
            let vs = variants@;
            let ids = repr_idents(d.attributes@);
            let values = discr_values(vs);
            if has_malformed_repr(d.attributes@) {
                Option::Some(located(ErrorKind::MalformedReprAttribute, ErrorLocation::Declaration))
            } else if !all_discr_literals_valid(vs) {
                Option::Some(
                    located(
                        ErrorKind::NonLiteralDiscriminant,
                        ErrorLocation::AtVariant(first_invalid_discr(vs, 0) as usize),
                    ),
                )
            } else if req.continuity && !is_continuous(values) {
                Option::Some(
                    located(
                        ErrorKind::DiscontinuousDiscriminants,
                        ErrorLocation::AtVariant(first_gap_index(values, 1) as usize),
                    ),
                )
            } else if req.zero_basing && !is_zero_based(values) {
                Option::Some(located(ErrorKind::NonZeroFirstDiscriminant, ErrorLocation::AtVariant(0)))
            } else if req.fieldlessness && !all_fieldless(vs) {
                Option::Some(
                    located(
                        ErrorKind::NonFieldlessVariant,
                        ErrorLocation::AtVariant(first_non_unit_index(vs, 0) as usize),
                    ),
                )
            } else if req.interop_header && !(has_interop_marker(ids) || all_fieldless(vs)) {
                Option::Some(located(ErrorKind::MissingInteropLayout, ErrorLocation::Declaration))
            } else if req.representation && resolved_repr(ids) is None {
                Option::Some(
                    located(ErrorKind::MissingOrInvalidRepresentation, ErrorLocation::Declaration),
                )
            } else {
                Option::None
            }
        },
        _ => Option::Some(located(ErrorKind::NotAnEnum, ErrorLocation::Declaration)),
    }
}

// ------------------------------------------------------------------
// Where a search ends, seen from the first witness
// ------------------------------------------------------------------

proof fn lemma_first_invalid_discr_from(vs: Seq<Variant>, i: int, k: int)
    requires
        0 <= i <= k < vs.len(),
        !discr_literal_valid(vs[k]),
        forall|j: int| i <= j < k ==> #[trigger] discr_literal_valid(vs[j]),
    ensures
        first_invalid_discr(vs, i) == k,
    decreases k - i,
{
    if i < k {
        lemma_first_invalid_discr_from(vs, i + 1, k);
    }
}

proof fn lemma_first_gap_index_from(s: Seq<int>, i: int, k: int)
    requires
        1 <= i <= k < s.len(),
        s[k] != s[k - 1] + 1,
        forall|j: int| i <= j < k ==> #[trigger] s[j] == s[j - 1] + 1,
    ensures
        first_gap_index(s, i) == k,
    decreases k - i,
{
    if i < k {
        lemma_first_gap_index_from(s, i + 1, k);
    }
}

proof fn lemma_first_non_unit_index_from(vs: Seq<Variant>, i: int, k: int)
    requires
        0 <= i <= k < vs.len(),
        !(vs[k].fields is Unit),
        forall|j: int| i <= j < k ==> (#[trigger] vs[j]).fields is Unit,
    ensures
        first_non_unit_index(vs, i) == k,
    decreases k - i,
{
    if i < k {
        lemma_first_non_unit_index_from(vs, i + 1, k);
    }
}

proof fn lemma_first_primitive_index_from(ids: Seq<Seq<char>>, i: int, k: int)
    requires
        0 <= i <= k < ids.len(),
        is_primitive_name(ids[k]),
        forall|j: int| i <= j < k ==> !is_primitive_name(#[trigger] ids[j]),
    ensures
        first_primitive_index(ids, i) == k,
    decreases k - i,
{
    if i < k {
        lemma_first_primitive_index_from(ids, i + 1, k);
    }
}

proof fn lemma_first_primitive_index_none(ids: Seq<Seq<char>>, i: int)
    requires
        0 <= i <= ids.len(),
        forall|j: int| i <= j < ids.len() ==> !is_primitive_name(#[trigger] ids[j]),
    ensures
        first_primitive_index(ids, i) == ids.len(),
    decreases ids.len() - i,
{
    if i < ids.len() {
        lemma_first_primitive_index_none(ids, i + 1);
    }
}

// ------------------------------------------------------------------
// Executable checks
// ------------------------------------------------------------------

/// Whether `s` is a non-empty string of decimal digits.
pub fn check_digits(s: &String) -> (r: bool)
    ensures
        r == is_digit_seq(s@),
{
    let n = s.as_str().unicode_len();
    if n == 0 {
        return false;
    }
    let mut i: usize = 0;
    while i < n
        invariant
            n == s@.len(),
            0 <= i <= n,
            forall|j: int| 0 <= j < i ==> is_digit(#[trigger] s@[j]),
        decreases n - i,
    {
        let c = s.as_str().get_char(i);
        let cv = c as u32;
        if cv < 48 || cv > 57 {
            assert(!is_digit(s@[i as int]));
            return false;
        }
        i += 1;
    }
    true
}

/// Whether `s` is one of the fixed-width primitive names.
pub fn is_primitive(s: &str) -> (r: bool)
    ensures
        r == is_primitive_name(s@),
{
    str_eq(s, "bool") || str_eq(s, "char") || str_eq(s, "f32") || str_eq(s, "f64") || str_eq(
        s,
        "i128",
    ) || str_eq(s, "i16") || str_eq(s, "i32") || str_eq(s, "i64") || str_eq(s, "i8") || str_eq(
        s,
        "isize",
    ) || str_eq(s, "str") || str_eq(s, "u128") || str_eq(s, "u16") || str_eq(s, "u32") || str_eq(
        s,
        "u64",
    ) || str_eq(s, "u8") || str_eq(s, "usize")
}

/// The first identifier among the flattened `repr` lists that names a
/// fixed-width primitive, if any: the representation the declaration
/// resolves to.
pub fn resolve_representation(idents: &Vec<String>) -> (r: Option<String>)
    ensures
        match r {
            Option::Some(s) => resolved_repr(string_views(idents@)) == Option::Some(s@),
            Option::None => resolved_repr(string_views(idents@)) is None,
        },
{
    let ghost ids = string_views(idents@);
    let mut i: usize = 0;
    while i < idents.len()
        invariant
            ids == string_views(idents@),
            0 <= i <= idents@.len(),
            forall|j: int| 0 <= j < i ==> !is_primitive_name(#[trigger] ids[j]),
        decreases idents@.len() - i,
    {
        if is_primitive(idents[i].as_str()) {
            proof {
                lemma_first_primitive_index_from(ids, 0, i as int);
            }
            return Option::Some(idents[i].clone());
        }
        i += 1;
    }
    proof {
        lemma_first_primitive_index_none(ids, 0);
    }
    Option::None
}

/// Continuity: consecutive values must differ by exactly one. A rejection
/// cites the index where the gap occurs.
pub fn validate_continuity(values: &Vec<num_bigint::BigInt>) -> (r: Result<(), AnalysisError>)
    ensures
        r is Ok <==> is_continuous(big_values(values@)),
        r matches Err(e) ==> e == located(
            ErrorKind::DiscontinuousDiscriminants,
            ErrorLocation::AtVariant(first_gap_index(big_values(values@), 1) as usize),
        ),
{
    let ghost s = big_values(values@);
    let mut i: usize = 1;
    while i < values.len()
        invariant
            s == big_values(values@),
            1 <= i,
            forall|j: int| 1 <= j < i && j < s.len() ==> #[trigger] s[j] == s[j - 1] + 1,
        decreases values@.len() - i,
    {
        let expected = big_succ(&values[i - 1]);
        if !big_eq(&values[i], &expected) {
            proof {
                lemma_first_gap_index_from(s, 1, i as int);
            }
            return Err(
                AnalysisError {
                    kind: ErrorKind::DiscontinuousDiscriminants,
                    location: ErrorLocation::AtVariant(i),
                },
            );
        }
        i += 1;
    }
    Ok(())
}

/// Zero-basing: the first value must be zero, or the set empty. A
/// rejection cites the leading variant.
pub fn validate_zero_basing(values: &Vec<num_bigint::BigInt>) -> (r: Result<(), AnalysisError>)
    ensures
        r is Ok <==> is_zero_based(big_values(values@)),
        r matches Err(e) ==> e == located(
            ErrorKind::NonZeroFirstDiscriminant,
            ErrorLocation::AtVariant(0),
        ),
{
    if values.len() == 0 {
        return Ok(());
    }
    let zero = big_zero();
    if big_eq(&values[0], &zero) {
        Ok(())
    } else {
        Err(
            AnalysisError {
                kind: ErrorKind::NonZeroFirstDiscriminant,
                location: ErrorLocation::AtVariant(0),
            },
        )
    }
}

/// Fieldlessness: no variant may carry associated data. A rejection cites
/// the offending variant.
pub fn validate_fieldlessness(variants: &Vec<Variant>) -> (r: Result<(), AnalysisError>)
    ensures
        r is Ok <==> all_fieldless(variants@),
        r matches Err(e) ==> e == located(
            ErrorKind::NonFieldlessVariant,
            ErrorLocation::AtVariant(first_non_unit_index(variants@, 0) as usize),
        ),
{
    let mut i: usize = 0;
    while i < variants.len()
        invariant
            0 <= i <= variants@.len(),
            forall|j: int| 0 <= j < i ==> (#[trigger] variants@[j]).fields is Unit,
        decreases variants@.len() - i,
    {
        match variants[i].fields {
            VariantFields::Unit => {},
            _ => {
                proof {
                    lemma_first_non_unit_index_from(variants@, 0, i as int);
                }
                return Err(
                    AnalysisError {
                        kind: ErrorKind::NonFieldlessVariant,
                        location: ErrorLocation::AtVariant(i),
                    },
                );
            },
        }
        i += 1;
    }
    Ok(())
}

/// The interoperable-layout check: the declaration must carry the layout
/// marker `C` in some `repr` list, or every variant must be fieldless.
pub fn validate_interop_header(idents: &Vec<String>, variants: &Vec<Variant>) -> (r: Result<
    (),
    AnalysisError,
>)
    ensures
        r is Ok <==> (has_interop_marker(string_views(idents@)) || all_fieldless(variants@)),
        r matches Err(e) ==> e == located(ErrorKind::MissingInteropLayout, ErrorLocation::Declaration),
{
    let ghost ids = string_views(idents@);
    let mut i: usize = 0;
    while i < idents.len()
        invariant
            ids == string_views(idents@),
            0 <= i <= idents@.len(),
            forall|j: int| 0 <= j < i ==> #[trigger] ids[j] != "C"@,
        decreases idents@.len() - i,
    {
        if str_eq(idents[i].as_str(), "C") {
            assert(ids[i as int] == "C"@);
            return Ok(());
        }
        i += 1;
    }
    match validate_fieldlessness(variants) {
        Ok(()) => Ok(()),
        Err(_) => Err(
            AnalysisError {
                kind: ErrorKind::MissingInteropLayout,
                location: ErrorLocation::Declaration,
            },
        ),
    }
}

// ------------------------------------------------------------------
// Attribute scan
// ------------------------------------------------------------------

proof fn lemma_repr_idents_take_step(attrs: Seq<Attribute>, i: int)
    requires
        0 <= i < attrs.len(),
    ensures
        repr_idents(attrs.take(i + 1)) == repr_idents(attrs.take(i)) + (if is_repr_attr(attrs[i]) {
            attr_idents(attrs[i])
        } else {
            Seq::<Seq<char>>::empty()
        }),
{
    assert(attrs.take(i + 1).drop_last() =~= attrs.take(i));
    assert(attrs.take(i + 1).last() == attrs[i]);
    if !is_repr_attr(attrs[i]) {
        assert(repr_idents(attrs.take(i)) + Seq::<Seq<char>>::empty() =~= repr_idents(
            attrs.take(i),
        ));
    }
}

/// Collect the identifiers of every attribute literally named `repr`,
/// flattened in declaration order. A `repr` attribute whose input is not a
/// parenthesized identifier list is reported as malformed.
pub fn scan_reprs(attrs: &Vec<Attribute>) -> (r: Result<Vec<String>, AnalysisError>)
    ensures
        match r {
            Ok(ids) => !has_malformed_repr(attrs@) && string_views(ids@) == repr_idents(attrs@),
            Err(e) => has_malformed_repr(attrs@) && e == located(
                ErrorKind::MalformedReprAttribute,
                ErrorLocation::Declaration,
            ),
        },
{
    let mut out: Vec<String> = Vec::new();
    let mut i: usize = 0;
    while i < attrs.len()
        invariant
            0 <= i <= attrs@.len(),
            string_views(out@) == repr_idents(attrs@.take(i as int)),
            forall|j: int|
                0 <= j < i ==> !(is_repr_attr(#[trigger] attrs@[j]) && attrs@[j].idents is None),
        decreases attrs@.len() - i,
    {
        let ghost base = repr_idents(attrs@.take(i as int));
        let a = &attrs[i];
        if str_eq(a.name.as_str(), "repr") {
            match &a.idents {
                Option::None => {
                    assert(is_repr_attr(attrs@[i as int]) && attrs@[i as int].idents is None);
                    return Err(
                        AnalysisError {
                            kind: ErrorKind::MalformedReprAttribute,
                            location: ErrorLocation::Declaration,
                        },
                    );
                },
                Option::Some(list) => {
                    proof {
                        assert(base + string_views(list@.take(0int)) =~= base);
                    }
                    let mut j: usize = 0;
                    while j < list.len()
                        invariant
                            0 <= i < attrs@.len(),
                            0 <= j <= list@.len(),
                            base == repr_idents(attrs@.take(i as int)),
                            is_repr_attr(attrs@[i as int]),
                            attr_idents(attrs@[i as int]) == string_views(list@),
                            !(attrs@[i as int].idents is None),
                            string_views(out@) == base + string_views(list@.take(j as int)),
                            forall|j2: int|
                                0 <= j2 < i ==> !(is_repr_attr(#[trigger] attrs@[j2])
                                    && attrs@[j2].idents is None),
                        decreases list@.len() - j,
                    {
                        let ghost old_out = out@;
                        out.push(list[j].clone());
                        proof {
                            assert(out@ == old_out.push(list@[j as int]));
                            assert(list@.take(j as int + 1) =~= list@.take(j as int).push(
                                list@[j as int],
                            ));
                            assert(string_views(out@) =~= base + string_views(
                                list@.take(j as int + 1),
                            )) by {
                                let lhs = string_views(out@);
                                let rhs = base + string_views(list@.take(j as int + 1));
                                assert(string_views(old_out).len() == old_out.len());
                                assert(old_out.len() == base.len() + j);
                                assert(lhs.len() == old_out.len() + 1);
                                assert(rhs.len() == base.len() + j + 1);
                                assert forall|k: int| 0 <= k < lhs.len() implies lhs[k] == rhs[k] by {
                                    assert(lhs[k] == out@[k]@);
                                    if k < old_out.len() {
                                        assert(out@[k] == old_out[k]);
                                        assert(string_views(old_out)[k] == old_out[k]@);
                                        assert(string_views(old_out)[k] == (base + string_views(
                                            list@.take(j as int),
                                        ))[k]);
                                        if k < base.len() {
                                            assert(rhs[k] == base[k]);
                                        } else {
                                            assert(rhs[k] == string_views(
                                                list@.take(j as int + 1),
                                            )[k - base.len()]);
                                            assert(string_views(list@.take(j as int + 1))[k
                                                - base.len()] == list@.take(j as int + 1)[k
                                                - base.len()]@);
                                            assert(string_views(list@.take(j as int))[k
                                                - base.len()] == list@.take(j as int)[k
                                                - base.len()]@);
                                        }
                                    } else {
                                        assert(k == old_out.len());
                                        assert(out@[k] == list@[j as int]);
                                        assert(rhs[k] == string_views(list@.take(j as int + 1))[j as int]);
                                    }
                                }
                            }
                        }
                        j += 1;
                    }
                    proof {
                        assert(list@.take(list@.len() as int) =~= list@);
                        lemma_repr_idents_take_step(attrs@, i as int);
                    }
                },
            }
        } else {
            proof {
                lemma_repr_idents_take_step(attrs@, i as int);
            }
        }
        i += 1;
    }
    proof {
        assert(attrs@.take(attrs@.len() as int) =~= attrs@);
    }
    Ok(out)
}

// ------------------------------------------------------------------
// The single-pass walk
// ------------------------------------------------------------------

/// The analyzer's output: the ordered discriminant values, the aggregate
/// masks and bounds accumulated alongside them, and the resolved
/// representation primitive when one was found.
#[derive(Debug)]
pub struct AnalysisResult {
    pub values: Vec<num_bigint::BigInt>,
    pub ever_enabled_bits: num_bigint::BigInt,
    pub always_enabled_bits: Option<num_bigint::BigInt>,
    pub min: Option<num_bigint::BigInt>,
    pub max: Option<num_bigint::BigInt>,
    pub count: usize,
    pub representation: Option<String>,
}

/// The result's discriminant fields hold exactly the reductions of the
/// computed value sequence; the bounds and the and-mask are absent exactly
/// when the sequence is empty.
pub open spec fn summary_ok(a: AnalysisResult, values: Seq<int>) -> bool {
    &&& big_values(a.values@) == values
    &&& a.values@.len() == values.len()
    &&& a.count == values.len()
    &&& big_value(a.ever_enabled_bits) == or_reduce(values)
    &&& match a.always_enabled_bits {
        Option::Some(b) => values.len() > 0 && big_value(b) == and_reduce(values),
        Option::None => values.len() == 0,
    }
    &&& match a.min {
        Option::Some(b) => values.len() > 0 && big_value(b) == min_reduce(values),
        Option::None => values.len() == 0,
    }
    &&& match a.max {
        Option::Some(b) => values.len() > 0 && big_value(b) == max_reduce(values),
        Option::None => values.len() == 0,
    }
}

/// Walk the variants once, in declaration order: each explicit decimal
/// literal takes the value it denotes, each omitted discriminant takes the
/// previous resulting value plus one (zero at the front), and the or/and
/// masks, minimum, maximum and count accumulate in the same pass.
pub fn summarize_discriminants(variants: &Vec<Variant>) -> (r: Result<
    AnalysisResult,
    AnalysisError,
>)
    ensures
        match r {
            Ok(a) => {
                &&& all_discr_literals_valid(variants@)
                &&& summary_ok(a, discr_values(variants@))
                &&& a.representation is None
            },
            Err(e) => !all_discr_literals_valid(variants@) && e == located(
                ErrorKind::NonLiteralDiscriminant,
                ErrorLocation::AtVariant(first_invalid_discr(variants@, 0) as usize),
            ),
        },
{
    let ghost vs = variants@;
    let mut discrs: Vec<num_bigint::BigInt> = Vec::new();
    let mut next = big_zero();
    let mut ever = big_zero();
    let mut always: Option<num_bigint::BigInt> = Option::None;
    let mut lo: Option<num_bigint::BigInt> = Option::None;
    let mut hi: Option<num_bigint::BigInt> = Option::None;
    let mut i: usize = 0;
    while i < variants.len()
        invariant
            vs == variants@,
            0 <= i <= vs.len(),
            forall|j: int| 0 <= j < i ==> #[trigger] discr_literal_valid(vs[j]),
            discrs@.len() == i,
            big_values(discrs@) == discr_values(vs.take(i as int)),
            forall|k: int|
                0 <= k < i ==> #[trigger] discr_values(vs.take(i as int))[k] >= 0,
            big_value(next) == (if i == 0 {
                0int
            } else {
                discr_values(vs.take(i as int)).last() + 1
            }),
            big_value(ever) == or_reduce(discr_values(vs.take(i as int))),
            match always {
                Option::Some(b) => i > 0 && big_value(b) == and_reduce(
                    discr_values(vs.take(i as int)),
                ),
                Option::None => i == 0,
            },
            match lo {
                Option::Some(b) => i > 0 && big_value(b) == min_reduce(
                    discr_values(vs.take(i as int)),
                ),
                Option::None => i == 0,
            },
            match hi {
                Option::Some(b) => i > 0 && big_value(b) == max_reduce(
                    discr_values(vs.take(i as int)),
                ),
                Option::None => i == 0,
            },
        decreases vs.len() - i,
    {
        let ghost prefix = discr_values(vs.take(i as int));
        proof {
            lemma_discr_values_length(vs.take(i as int));
        }
        let v = &variants[i];
        let value: num_bigint::BigInt = match &v.discriminant {
            Option::Some(DiscriminantExpr::IntLiteral(s)) => {
                if !check_digits(s) {
                    proof {
                        assert(!discr_literal_valid(vs[i as int]));
                        lemma_first_invalid_discr_from(vs, 0, i as int);
                    }
                    return Err(
                        AnalysisError {
                            kind: ErrorKind::NonLiteralDiscriminant,
                            location: ErrorLocation::AtVariant(i),
                        },
                    );
                }
                proof {
                    lemma_digits_value_nonneg(s@);
                }
                big_from_digits(s.as_str())
            },
            Option::Some(DiscriminantExpr::Unsupported) => {
                proof {
                    assert(!discr_literal_valid(vs[i as int]));
                    lemma_first_invalid_discr_from(vs, 0, i as int);
                }
                return Err(
                    AnalysisError {
                        kind: ErrorKind::NonLiteralDiscriminant,
                        location: ErrorLocation::AtVariant(i),
                    },
                );
            },
            Option::None => big_clone(&next),
        };
        proof {
            assert(discr_literal_valid(vs[i as int]));
            if i > 0 {
                assert(prefix[i - 1] >= 0);
            }
            assert(big_value(value) == variant_value(vs[i as int], prefix));
            assert(big_value(value) >= 0);
        }
        let ghost new_prefix = prefix.push(big_value(value));
        proof {
            lemma_discr_values_take_step(vs, i as int);
            assert(discr_values(vs.take(i as int + 1)) == new_prefix);
            assert(new_prefix.drop_last() =~= prefix);
            assert(new_prefix.last() == big_value(value));
        }
        ever = big_or(&ever, &value);
        always = match always {
            Option::None => Option::Some(big_clone(&value)),
            Option::Some(b) => Option::Some(big_and(&b, &value)),
        };
        lo = match lo {
            Option::None => Option::Some(big_clone(&value)),
            Option::Some(m) => if big_lt(&value, &m) {
                Option::Some(big_clone(&value))
            } else {
                Option::Some(m)
            },
        };
        hi = match hi {
            Option::None => Option::Some(big_clone(&value)),
            Option::Some(m) => if big_lt(&m, &value) {
                Option::Some(big_clone(&value))
            } else {
                Option::Some(m)
            },
        };
        next = big_succ(&value);
        discrs.push(value);
        i += 1;
        proof {
            assert(big_values(discrs@) =~= new_prefix);
            assert forall|k: int| 0 <= k < i implies #[trigger] discr_values(
                vs.take(i as int),
            )[k] >= 0 by {
                if k < i - 1 {
                    assert(new_prefix[k] == prefix[k]);
                }
            }
        }
    }
    proof {
        assert(vs.take(vs.len() as int) =~= vs);
        lemma_discr_values_length(vs);
    }
    let count = variants.len();
    Ok(
        AnalysisResult {
            values: discrs,
            ever_enabled_bits: ever,
            always_enabled_bits: always,
            min: lo,
            max: hi,
            count,
            representation: Option::None,
        },
    )
}

// ------------------------------------------------------------------
// The analysis entry point
// ------------------------------------------------------------------

/// The resolved-representation field matches what the flattened `repr`
/// identifiers resolve to.
pub open spec fn representation_ok(a: AnalysisResult, ids: Seq<Seq<char>>) -> bool {
    match a.representation {
        Option::Some(s) => resolved_repr(ids) == Option::Some(s@),
        Option::None => resolved_repr(ids) is None,
    }
}

/// Analyze a declaration under the requested checks: reject anything that
/// is not an enum, scan and flatten its `repr` attributes, walk the
/// variants once for values and aggregates, then apply exactly the
/// requested validations. The error, when there is one, is the first the
/// fixed order of `analysis_error` reaches.
pub fn analyze(d: &EnumDeclaration, req: ValidationSet) -> (r: Result<AnalysisResult, AnalysisError>)
    ensures
        r is Ok <==> analysis_error(*d, req) is None,
        r matches Err(e) ==> analysis_error(*d, req) == Option::Some(e),
        r matches Ok(a) ==> {
            &&& d.data matches DeclarationData::Enumeration(variants)
            &&& summary_ok(a, discr_values(variants@))
            &&& representation_ok(a, repr_idents(d.attributes@))
        },
{
    let variants: &Vec<Variant> = match &d.data {
        DeclarationData::Enumeration(vs) => vs,
        _ => {
            return Err(
                AnalysisError { kind: ErrorKind::NotAnEnum, location: ErrorLocation::Declaration },
            );
        },
    };
    let idents = match scan_reprs(&d.attributes) {
        Ok(ids) => ids,
        Err(e) => {
            return Err(e);
        },
    };
    let mut summary = match summarize_discriminants(variants) {
        Ok(a) => a,
        Err(e) => {
            return Err(e);
        },
    };
    if req.continuity {
        if let Err(e) = validate_continuity(&summary.values) {
            return Err(e);
        }
    }
    if req.zero_basing {
        if let Err(e) = validate_zero_basing(&summary.values) {
            return Err(e);
        }
    }
    if req.fieldlessness {
        if let Err(e) = validate_fieldlessness(variants) {
            return Err(e);
        }
    }
    if req.interop_header {
        if let Err(e) = validate_interop_header(&idents, variants) {
            return Err(e);
        }
    }
    let representation = resolve_representation(&idents);
    if req.representation && representation.is_none() {
        return Err(
            AnalysisError {
                kind: ErrorKind::MissingOrInvalidRepresentation,
                location: ErrorLocation::Declaration,
            },
        );
    }
    summary.representation = representation;
    Ok(summary)
}

} // verus!
