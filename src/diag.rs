//! Diagnostics: what elevation and queries report without failing.

use vstd::prelude::*;

use crate::location::{fmt_rtk_location, location_text, Location, LocationModel};

verus! {

/// Something elevation or a query reports to the person who wrote the
/// query, without failing.
#[derive(Debug)]
pub enum Diagnostic {
    /// A method call's last path segment matched the query but its full
    /// location did not: most often the impl block number is missing or
    /// wrong.
    DidYouMean { query: Location, found: Location },
    /// A function with generic parameters was examined; they are left out.
    GenericParamsIgnored,
    /// A function without a body cannot be queried.
    MissingBody,
    /// A trait impl holds a constant, which is not described.
    ConstInTraitImpl,
    /// A trait impl holds an associated type, which is not described.
    TypeInTraitImpl,
    /// The type a trait is implemented for has no fact-model form.
    SelfTypeNotElevated,
    /// A field of the struct or enum at `owner` has no fact-model form and
    /// is left out; the other fields are still described.
    FieldSkipped { owner: Location, field: String },
    /// A union has no fact-model form.
    UnionSkipped(Location),
}

/// The mathematical value of a [`Diagnostic`].
pub enum DiagnosticModel {
    DidYouMean { query: LocationModel, found: LocationModel },
    GenericParamsIgnored,
    MissingBody,
    ConstInTraitImpl,
    TypeInTraitImpl,
    SelfTypeNotElevated,
    FieldSkipped { owner: LocationModel, field: Seq<char> },
    UnionSkipped(LocationModel),
}

/// The sentence that tells the author of a query what was found.
pub open spec fn diagnostic_text(d: DiagnosticModel) -> Seq<char> {
    match d {
        DiagnosticModel::DidYouMean { query, found } => "query for `"@ + location_text(query)
            + "` likely intended to match against `"@ + location_text(found)
            + "`, consider changing the impl block number"@,
        DiagnosticModel::GenericParamsIgnored => "function generic parameters will be ignored (may be elided lifetimes or synthetic impl generics)"@,
        DiagnosticModel::MissingBody => "function without body cannot be queried"@,
        DiagnosticModel::ConstInTraitImpl => "trait impls cannot contain const items currently"@,
        DiagnosticModel::TypeInTraitImpl => "trait impls cannot contain type items currently"@,
        DiagnosticModel::SelfTypeNotElevated => "failed to convert self type"@,
        DiagnosticModel::FieldSkipped { owner, field } => "field `"@ + field + "` of `"@
            + location_text(owner) + "` has no fact-model form; the rest of the fields are still described"@,
        DiagnosticModel::UnionSkipped(l) => "encountered a union type `"@ + location_text(l) + "` in a query"@,
    }
}

impl Diagnostic {
    /// A sentence for the person who wrote the query.
    pub fn message(&self) -> (r: String)
        ensures
            r@ == diagnostic_text(diagnostic_view(*self)),
    {
        match self {
            Diagnostic::DidYouMean { query, found } => {
                let mut out = String::from_str("query for `");
                out.append(fmt_rtk_location(query).as_str());
                out.append("` likely intended to match against `");
                out.append(fmt_rtk_location(found).as_str());
                out.append("`, consider changing the impl block number");
                out
            },
            Diagnostic::GenericParamsIgnored => String::from_str(
                "function generic parameters will be ignored (may be elided lifetimes or synthetic impl generics)",
            ),
            Diagnostic::MissingBody => String::from_str("function without body cannot be queried"),
            Diagnostic::ConstInTraitImpl => String::from_str("trait impls cannot contain const items currently"),
            Diagnostic::TypeInTraitImpl => String::from_str("trait impls cannot contain type items currently"),
            Diagnostic::SelfTypeNotElevated => String::from_str("failed to convert self type"),
            Diagnostic::FieldSkipped { owner, field } => {
                let mut out = String::from_str("field `");
                out.append(field.as_str());
                out.append("` of `");
                out.append(fmt_rtk_location(owner).as_str());
                out.append("` has no fact-model form; the rest of the fields are still described");
                out
            },
            Diagnostic::UnionSkipped(l) => {
                let mut out = String::from_str("encountered a union type `");
                out.append(fmt_rtk_location(l).as_str());
                out.append("` in a query");
                out
            },
        }
    }
}

pub open spec fn diagnostic_view(d: Diagnostic) -> DiagnosticModel {
    match d {
        Diagnostic::DidYouMean { query, found } => DiagnosticModel::DidYouMean { query: query@, found: found@ },
        Diagnostic::GenericParamsIgnored => DiagnosticModel::GenericParamsIgnored,
        Diagnostic::MissingBody => DiagnosticModel::MissingBody,
        Diagnostic::ConstInTraitImpl => DiagnosticModel::ConstInTraitImpl,
        Diagnostic::TypeInTraitImpl => DiagnosticModel::TypeInTraitImpl,
        Diagnostic::SelfTypeNotElevated => DiagnosticModel::SelfTypeNotElevated,
        Diagnostic::FieldSkipped { owner, field } => DiagnosticModel::FieldSkipped { owner: owner@, field: field@ },
        Diagnostic::UnionSkipped(l) => DiagnosticModel::UnionSkipped(l@),
    }
}

pub open spec fn diagnostics_view(s: Seq<Diagnostic>) -> Seq<DiagnosticModel> {
    s.map_values(|d: Diagnostic| diagnostic_view(d))
}

} // verus!
