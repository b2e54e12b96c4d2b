//! What a type offers so that expressions can filter it.

use vstd::prelude::*;

use crate::query::error::FilterExpressionError;
use crate::query::error::FilterExpressionErrorKind;
use crate::query::model;
use crate::query::private::Predicate;
use crate::query::wire_model;

verus! {

/// A type that filter expressions can be asked about.
///
/// `matches` dispatches a predicate on the field it names, and `validate`
/// checks a predicate against that field's values. Both are functions of the
/// predicate alone and of the value.
pub trait Filterable: Sized {
    /// The typed handles of the target's fields.
    type Fields;

    /// The stable wire name of the target, in contracts.
    spec fn target_name() -> Seq<char>;

    /// Whether the value passes a predicate.
    spec fn passes(&self, predicate: model::PredicateV) -> bool;

    /// What validating a predicate on a field answers, and what the
    /// predicate's test becomes.
    spec fn checked(field: Seq<char>, data: model::DataV) -> (
        Option<FilterExpressionErrorKind>,
        model::DataV,
    );

    /// The stable wire name of the target.
    fn filter_target() -> (target: &'static str)
        ensures
            target@ == Self::target_name(),
    ;

    /// The typed handles of the target's fields.
    fn filter_fields() -> Self::Fields;

    /// Report whether the value passes a predicate.
    fn filter_matches(&self, predicate: &Predicate) -> (passes: bool)
        ensures
            passes == self.passes(predicate@),
    ;

    /// Validate a predicate, settling the family of its literals.
    fn filter_validate(predicate: &mut Predicate) -> (result: Result<(), FilterExpressionError>)
        ensures
            (crate::query::error::reason(result), final(predicate)@.data) == Self::checked(
                old(predicate)@.field,
                old(predicate)@.data,
            ),
            final(predicate)@.field == old(predicate)@.field,
            final(predicate)@.target == old(predicate)@.target,
    ;

    /// A test that is accepted settles on the same meaning again once it is
    /// written and read back.
    proof fn lemma_settles_again(field: Seq<char>, data: model::DataV)
        requires
            Self::checked(field, data).0 is None,
            wire_model::faithful(data),
            data matches model::DataV::Relation(_, inner) ==> wire_model::well_formed(*inner),
        ensures
            wire_model::settles_again(
                data,
                Self::checked(field, data).1,
                Self::checked(field, wire_model::wire_test(Self::checked(field, data).1)),
            ),
    ;

    /// Predicates that are one predicate get one answer.
    proof fn lemma_passes_alike(&self, left: model::PredicateV, right: model::PredicateV)
        requires
            model::same_predicate(left, right),
            wire_model::well_formed(model::ExprV::Predicate(left)),
            wire_model::well_formed(model::ExprV::Predicate(right)),
            wire_model::sound(model::ExprV::Predicate(left)),
            wire_model::sound(model::ExprV::Predicate(right)),
        ensures
            self.passes(left) == self.passes(right),
    ;

    /// Settling a test whose literals are known, on whatever target, keeps its
    /// answers.
    proof fn lemma_settling_keeps_answers(
        &self,
        predicate: model::PredicateV,
        target: Option<Seq<char>>,
    )
        requires
            Self::checked(predicate.field, predicate.data).0 is None,
            model::resolved(model::ExprV::Predicate(predicate)),
        ensures
            self.passes(
                model::PredicateV {
                    target,
                    field: predicate.field,
                    data: Self::checked(predicate.field, predicate.data).1,
                },
            ) == self.passes(predicate),
    ;
}

/// A closed vocabulary with stable wire names.
pub trait FilterEnum: Sized {
    /// The stable name of every variant, in contracts.
    spec fn variant_names() -> Seq<Seq<char>>;

    /// The stable name of a variant, in contracts.
    spec fn name(&self) -> Seq<char>;

    /// The stable name of every variant.
    fn filter_variants() -> (names: Vec<&'static str>)
        ensures
            names@.map_values(|name: &'static str| name@) == Self::variant_names(),
    ;

    /// The stable name of the variant.
    fn filter_name(&self) -> (name: &'static str)
        ensures
            name@ == self.name(),
            Self::variant_names().contains(name@),
    ;
}

} // verus!
