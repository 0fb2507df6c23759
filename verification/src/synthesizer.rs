//! The trait-impl synthesizer: given a requested trait and a declaration,
//! it runs the analysis under the checks that trait needs and renders the
//! implementation block as source text, with every computed constant
//! spliced back as a decimal literal.

use vstd::prelude::*;

use crate::analyzer::{
    AnalysisResult, analysis_error, analyze, discr_values, repr_idents, resolved_repr, summary_ok,
};
use crate::bignum::{big_from_usize, big_to_decimal, big_value, big_values};
use crate::decl::{AnalysisError, DeclarationData, EnumDeclaration, TraitRequest, ValidationSet};
use crate::numeric::{and_reduce, decimal_text, max_reduce, min_reduce, or_reduce};
use vstd::pervasive::unreached;
use vstd::string::StringExecFns;

verus! {

/// The validations each derivable trait requires of a declaration.
pub open spec fn required_checks(req: TraitRequest) -> ValidationSet {
    match req {
        TraitRequest::DiscriminantValues => ValidationSet {
            representation: true,
            interop_header: false,
            continuity: false,
            zero_basing: false,
            fieldlessness: false,
        },
        TraitRequest::DiscriminantHeaded => ValidationSet {
            representation: false,
            interop_header: true,
            continuity: false,
            zero_basing: false,
            fieldlessness: false,
        },
        TraitRequest::ContinuousDiscriminants => ValidationSet {
            representation: false,
            interop_header: false,
            continuity: true,
            zero_basing: false,
            fieldlessness: false,
        },
        TraitRequest::FirstDiscriminantIsZero => ValidationSet {
            representation: false,
            interop_header: false,
            continuity: false,
            zero_basing: true,
            fieldlessness: false,
        },
        TraitRequest::FieldlessEnum => ValidationSet {
            representation: false,
            interop_header: false,
            continuity: false,
            zero_basing: false,
            fieldlessness: true,
        },
    }
}

/// The checks to request for a trait, as a value.
pub fn validation_set_for(req: TraitRequest) -> (r: ValidationSet)
    ensures
        r == required_checks(req),
{
    match req {
        TraitRequest::DiscriminantValues => ValidationSet {
            representation: true,
            interop_header: false,
            continuity: false,
            zero_basing: false,
            fieldlessness: false,
        },
        TraitRequest::DiscriminantHeaded => ValidationSet {
            representation: false,
            interop_header: true,
            continuity: false,
            zero_basing: false,
            fieldlessness: false,
        },
        TraitRequest::ContinuousDiscriminants => ValidationSet {
            representation: false,
            interop_header: false,
            continuity: true,
            zero_basing: false,
            fieldlessness: false,
        },
        TraitRequest::FirstDiscriminantIsZero => ValidationSet {
            representation: false,
            interop_header: false,
            continuity: false,
            zero_basing: true,
            fieldlessness: false,
        },
        TraitRequest::FieldlessEnum => ValidationSet {
            representation: false,
            interop_header: false,
            continuity: false,
            zero_basing: false,
            fieldlessness: true,
        },
    }
}

/// The name of each derivable trait, as spliced into the output.
pub open spec fn trait_name_text(req: TraitRequest) -> Seq<char> {
    match req {
        TraitRequest::DiscriminantValues => "DiscriminantValues"@,
        TraitRequest::DiscriminantHeaded => "DiscriminantHeaded"@,
        TraitRequest::ContinuousDiscriminants => "ContinuousDiscriminants"@,
        TraitRequest::FirstDiscriminantIsZero => "FirstDiscriminantIsZero"@,
        TraitRequest::FieldlessEnum => "FieldlessEnum"@,
    }
}

fn trait_name(req: TraitRequest) -> (r: &'static str)
    ensures
        r@ == trait_name_text(req),
{
    match req {
        TraitRequest::DiscriminantValues => "DiscriminantValues",
        TraitRequest::DiscriminantHeaded => "DiscriminantHeaded",
        TraitRequest::ContinuousDiscriminants => "ContinuousDiscriminants",
        TraitRequest::FirstDiscriminantIsZero => "FirstDiscriminantIsZero",
        TraitRequest::FieldlessEnum => "FieldlessEnum",
    }
}

/// An optional bound rendered as an `Option` literal.
pub open spec fn option_text(v: Option<int>) -> Seq<char> {
    match v {
        Option::Some(n) => "::std::option::Option::Some("@ + decimal_text(n) + ")"@,
        Option::None => "::std::option::Option::None"@,
    }
}

/// The comma-separated list of the values, in order.
pub open spec fn values_list_text(s: Seq<int>) -> Seq<char>
    decreases s.len(),
{
    if s.len() == 0 {
        Seq::empty()
    } else if s.len() == 1 {
        decimal_text(s[0])
    } else {
        values_list_text(s.drop_last()) + ", "@ + decimal_text(s.last())
    }
}

/// The and-mask literal: the and-reduction of the values, or the all-ones
/// pattern of the representation width, written `!0`, when the set is
/// empty (the identity element of bitwise and).
pub open spec fn always_bits_text(values: Seq<int>) -> Seq<char> {
    if values.len() == 0 {
        "!0"@
    } else {
        decimal_text(and_reduce(values))
    }
}

/// The members emitted for `DiscriminantValues`: the associated
/// discriminant type, the full value list, both bit masks, both bounds,
/// and the count.
pub open spec fn values_body_text(repr: Seq<char>, values: Seq<int>) -> Seq<char> {
    "type Discriminant = ::std::primitive::"@ + repr + ";\n"@
        + "const VALUES: &'static [Self::Discriminant] = &["@ + values_list_text(values) + "];\n"@
        + "const EVER_ENABLED_BITS: Self::Discriminant = "@ + decimal_text(or_reduce(values))
        + ";\n"@ + "const ALWAYS_ENABLED_BITS: Self::Discriminant = "@ + always_bits_text(values)
        + ";\n"@ + "const MIN: ::std::option::Option<Self::Discriminant> = "@ + option_text(
        if values.len() == 0 {
            Option::None
        } else {
            Option::Some(min_reduce(values))
        },
    ) + ";\n"@ + "const MAX: ::std::option::Option<Self::Discriminant> = "@ + option_text(
        if values.len() == 0 {
            Option::None
        } else {
            Option::Some(max_reduce(values))
        },
    ) + ";\n"@ + "const COUNT: usize = "@ + decimal_text(values.len() as int) + ";\n"@
}

/// The implementation header, spliced around the declaration's own
/// generics text.
pub open spec fn impl_header_text(req: TraitRequest, d: EnumDeclaration) -> Seq<char> {
    "unsafe impl "@ + d.impl_generics@ + " ::enum_traits::"@ + trait_name_text(req) + " for "@
        + d.name@ + d.ty_generics@ + " "@ + d.where_clause@ + " {\n"@
}

/// The full output for a declaration that passed the requested checks:
/// the header, the members (only `DiscriminantValues` has any), and the
/// closing brace.
pub open spec fn synthesized_text(req: TraitRequest, d: EnumDeclaration) -> Seq<char> {
    match d.data {
        DeclarationData::Enumeration(variants) => {
            let body = if req is DiscriminantValues {
                match resolved_repr(repr_idents(d.attributes@)) {
                    Option::Some(repr) => values_body_text(repr, discr_values(variants@)),
                    Option::None => Seq::empty(),
                }
            } else {
                Seq::empty()
            };
            impl_header_text(req, d) + body + "}\n"@
        },
        _ => Seq::empty(),
    }
}

/// Render the comma-separated value list.
fn render_values_list(values: &Vec<num_bigint::BigInt>) -> (r: String)
    ensures
        r@ == values_list_text(big_values(values@)),
{
    let ghost s = big_values(values@);
    let mut out = String::new();
    let mut i: usize = 0;
    while i < values.len()
        invariant
            s == big_values(values@),
            0 <= i <= values@.len(),
            out@ == values_list_text(s.take(i as int)),
        decreases values@.len() - i,
    {
        if i > 0 {
            out.append(", ");
        }
        let rendered = big_to_decimal(&values[i]);
        out.append(rendered.as_str());
        proof {
            assert(s.take(i as int + 1).drop_last() =~= s.take(i as int));
            assert(s.take(i as int + 1).last() == s[i as int]);
            if i == 0 {
                assert(s.take(1int).len() == 1);
                assert(Seq::<char>::empty() + decimal_text(s[0]) =~= decimal_text(s[0]));
                assert(out@ == values_list_text(s.take(1int)));
            } else {
                assert(out@ == values_list_text(s.take(i as int)) + ", "@ + decimal_text(
                    s[i as int],
                ));
            }
        }
        i += 1;
    }
    proof {
        assert(s.take(values@.len() as int) =~= s);
    }
    out
}

/// Render an optional bound as an `Option` literal.
fn render_option_value(v: &Option<num_bigint::BigInt>) -> (r: String)
    ensures
        r@ == option_text(
            match v {
                Option::Some(b) => Option::Some(big_value(*b)),
                Option::None => Option::None,
            },
        ),
{
    match v {
        Option::None => "::std::option::Option::None".to_owned(),
        Option::Some(b) => {
            let mut out = "::std::option::Option::Some(".to_owned();
            let rendered = big_to_decimal(b);
            out.append(rendered.as_str());
            out.append(")");
            out
        },
    }
}

/// Render the `DiscriminantValues` members from an analysis result.
fn render_values_body(a: &AnalysisResult, repr: &String) -> (r: String)
    requires
        summary_ok(*a, big_values(a.values@)),
    ensures
        r@ == values_body_text(repr@, big_values(a.values@)),
{
    let ghost values = big_values(a.values@);
    let mut out = "type Discriminant = ::std::primitive::".to_owned();
    out.append(repr.as_str());
    out.append(";\n");
    out.append("const VALUES: &'static [Self::Discriminant] = &[");
    let list = render_values_list(&a.values);
    out.append(list.as_str());
    out.append("];\n");
    out.append("const EVER_ENABLED_BITS: Self::Discriminant = ");
    let ever = big_to_decimal(&a.ever_enabled_bits);
    out.append(ever.as_str());
    out.append(";\n");
    out.append("const ALWAYS_ENABLED_BITS: Self::Discriminant = ");
    match &a.always_enabled_bits {
        Option::Some(b) => {
            let rendered = big_to_decimal(b);
            out.append(rendered.as_str());
        },
        Option::None => {
            out.append("!0");
        },
    }
    out.append(";\n");
    out.append("const MIN: ::std::option::Option<Self::Discriminant> = ");
    let lo = render_option_value(&a.min);
    out.append(lo.as_str());
    out.append(";\n");
    out.append("const MAX: ::std::option::Option<Self::Discriminant> = ");
    let hi = render_option_value(&a.max);
    out.append(hi.as_str());
    out.append(";\n");
    out.append("const COUNT: usize = ");
    let count_big = big_from_usize(a.count);
    let count_text = big_to_decimal(&count_big);
    out.append(count_text.as_str());
    out.append(";\n");
    out
}

/// Synthesize the implementation of the requested trait for a
/// declaration: run the analysis under exactly the checks that trait
/// needs, and on success render the implementation block, the computed
/// constants spliced in as decimal literals. On failure the located error
/// is handed back for the host to surface as a diagnostic at the recorded
/// location; nothing is emitted.
pub fn synthesize(req: TraitRequest, d: &EnumDeclaration) -> (r: Result<String, AnalysisError>)
    ensures
        r is Ok <==> analysis_error(*d, required_checks(req)) is None,
        r matches Err(e) ==> analysis_error(*d, required_checks(req)) == Option::Some(e),
        r matches Ok(s) ==> s@ == synthesized_text(req, *d),
{
    let checks = validation_set_for(req);
    let a = match analyze(d, checks) {
        Ok(a) => a,
        Err(e) => {
            return Err(e);
        },
    };
    let mut out = "unsafe impl ".to_owned();
    out.append(d.impl_generics.as_str());
    out.append(" ::enum_traits::");
    out.append(trait_name(req));
    out.append(" for ");
    out.append(d.name.as_str());
    out.append(d.ty_generics.as_str());
    out.append(" ");
    out.append(d.where_clause.as_str());
    out.append(" {\n");
    assert(out@ == impl_header_text(req, *d));
    let is_values = match req {
        TraitRequest::DiscriminantValues => true,
        _ => false,
    };
    if is_values {
        match &a.representation {
            Option::Some(repr) => {
                let body = render_values_body(&a, repr);
                out.append(body.as_str());
            },
            Option::None => {
                return unreached();
            },
        }
    } else {
        proof {
            assert(out@ + Seq::<char>::empty() =~= out@);
        }
    }
    out.append("}\n");
    Ok(out)
}

} // verus!
