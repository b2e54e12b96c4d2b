//! Filter expressions over one target.

use std::marker::PhantomData;

use vstd::prelude::*;

use crate::query::filterable::Filterable;
use crate::query::grammar::RelationQuantifier;
use crate::query::grammar::SetOperator;
use crate::query::grammar::TextOperator;
use crate::query::matching;
use crate::query::matching::ExprData;
use crate::query::model;
use crate::query::private::Predicate;
use crate::query::round_trip;
use crate::query::wire_model;

verus! {

/// A filter expression over values of one target. It is well formed, and its
/// literals are known.
pub struct FilterExpr<T> {
    pub(crate) data: ExprData,
    pub(crate) marker: PhantomData<T>,
}

/// The branches that an expression contributes to a conjunction.
pub open spec fn conjuncts(expression: model::ExprV) -> Seq<model::ExprV> {
    match expression {
        model::ExprV::And(expressions) => expressions,
        _ => seq![expression],
    }
}

/// The branches that an expression contributes to a disjunction.
pub open spec fn disjuncts(expression: model::ExprV) -> Seq<model::ExprV> {
    match expression {
        model::ExprV::Or(expressions) => expressions,
        _ => seq![expression],
    }
}

impl<T> FilterExpr<T> {
    /// The expression in the model.
    pub closed spec fn view(&self) -> model::ExprV {
        self.data@
    }

    #[verifier::type_invariant]
    spec fn is_valid(&self) -> bool {
        wire_model::well_formed(self.data@) && model::resolved(self.data@)
    }

    /// Wrap an expression tree.
    pub(crate) fn from_data(data: ExprData) -> (expression: FilterExpr<T>)
        requires
            wire_model::well_formed(data@),
            model::resolved(data@),
        ensures
            expression@ == data@,
    {
        FilterExpr { data, marker: PhantomData }
    }

    /// The expression of one predicate.
    pub(crate) fn predicate(predicate: Predicate) -> (expression: FilterExpr<T>)
        requires
            wire_model::well_formed(model::ExprV::Predicate(predicate@)),
            model::resolved(model::ExprV::Predicate(predicate@)),
        ensures
            expression@ == model::ExprV::Predicate(predicate@),
    {
        FilterExpr { data: ExprData::Predicate(predicate), marker: PhantomData }
    }

    /// The expression tree.
    pub fn data(&self) -> (data: &ExprData)
        ensures
            data@ == self@,
            wire_model::well_formed(data@),
            model::resolved(data@),
    {
        proof {
            use_type_invariant(self);
        }
        &self.data
    }

    /// Take the expression tree.
    pub fn into_data(self) -> (data: ExprData)
        ensures
            data@ == self@,
            wire_model::well_formed(data@),
            model::resolved(data@),
    {
        proof {
            use_type_invariant(&self);
        }
        self.data
    }

    /// Match what both expressions match. A conjunction on either side is
    /// joined rather than nested.
    pub fn and(self, other: FilterExpr<T>) -> (both: FilterExpr<T>)
        ensures
            both@ == model::ExprV::And(conjuncts(self@) + conjuncts(other@)),
    {
        proof {
            use_type_invariant(&self);
            use_type_invariant(&other);
            round_trip::law_combining_keeps_well_formedness(self@, other@);
        }
        let mut expressions = match self.data {
            ExprData::And(expressions) => {
                proof {
                    matching::lemma_junction_views(expressions);
                }
                expressions
            },
            data => {
                let mut single: Vec<ExprData> = Vec::new();
                single.push(data);
                assert(matching::views(single@) =~= seq![data@]);
                single
            },
        };
        let mut others = match other.data {
            ExprData::And(expressions) => {
                proof {
                    matching::lemma_junction_views(expressions);
                }
                expressions
            },
            data => {
                let mut single: Vec<ExprData> = Vec::new();
                single.push(data);
                assert(matching::views(single@) =~= seq![data@]);
                single
            },
        };
        let ghost left = matching::views(expressions@);
        let ghost right = matching::views(others@);
        expressions.append(&mut others);
        proof {
            assert(matching::views(expressions@) =~= left + right);
            matching::lemma_junction_views(expressions);
        }
        FilterExpr { data: ExprData::And(expressions), marker: PhantomData }
    }

    /// Match what either expression matches. A disjunction on either side is
    /// joined rather than nested.
    pub fn or(self, other: FilterExpr<T>) -> (either: FilterExpr<T>)
        ensures
            either@ == model::ExprV::Or(disjuncts(self@) + disjuncts(other@)),
    {
        proof {
            use_type_invariant(&self);
            use_type_invariant(&other);
            round_trip::law_combining_keeps_well_formedness(self@, other@);
        }
        let mut expressions = match self.data {
            ExprData::Or(expressions) => {
                proof {
                    matching::lemma_junction_views(expressions);
                }
                expressions
            },
            data => {
                let mut single: Vec<ExprData> = Vec::new();
                single.push(data);
                assert(matching::views(single@) =~= seq![data@]);
                single
            },
        };
        let mut others = match other.data {
            ExprData::Or(expressions) => {
                proof {
                    matching::lemma_junction_views(expressions);
                }
                expressions
            },
            data => {
                let mut single: Vec<ExprData> = Vec::new();
                single.push(data);
                assert(matching::views(single@) =~= seq![data@]);
                single
            },
        };
        let ghost left = matching::views(expressions@);
        let ghost right = matching::views(others@);
        expressions.append(&mut others);
        proof {
            assert(matching::views(expressions@) =~= left + right);
            matching::lemma_junction_views(expressions);
        }
        FilterExpr { data: ExprData::Or(expressions), marker: PhantomData }
    }

    /// Match what the expression does not match.
    pub fn not(self) -> (negated: FilterExpr<T>)
        ensures
            negated@ == model::ExprV::Not(Box::new(self@)),
    {
        proof {
            use_type_invariant(&self);
        }
        FilterExpr { data: ExprData::Not(Box::new(self.data)), marker: PhantomData }
    }

    /// Copy an expression.
    pub fn copy(&self) -> (copy: FilterExpr<T>)
        ensures
            copy@ == self@,
    {
        proof {
            use_type_invariant(self);
        }
        FilterExpr { data: self.data.copy(), marker: PhantomData }
    }

    /// Report whether two expressions are one expression, branch by branch.
    pub fn same(&self, other: &FilterExpr<T>) -> (same: bool)
        ensures
            same == model::same_expression(self@, other@),
    {
        self.data.same(&other.data)
    }
}

impl<T: Filterable> FilterExpr<T> {
    /// Report whether a value matches the expression.
    pub fn matches(&self, candidate: &T) -> (passes: bool)
        ensures
            passes == model::accepts(self@, candidate),
    {
        matching::evaluate(&self.data, candidate)
    }
}

/// A conjunction matches exactly what both of its sides match.
pub proof fn law_and_is_conjunction<T: Filterable>(
    left: model::ExprV,
    right: model::ExprV,
    candidate: &T,
)
    ensures
        model::accepts(model::ExprV::And(conjuncts(left) + conjuncts(right)), candidate) <==> (
        model::accepts(left, candidate) && model::accepts(right, candidate)),
{
    let branches = conjuncts(left) + conjuncts(right);
    lemma_conjuncts(left, candidate);
    lemma_conjuncts(right, candidate);
    assert(model::accepts(model::ExprV::And(branches), candidate) == model::all_accept(
        branches,
        candidate,
    ));
    if model::all_accept(branches, candidate) {
        assert forall|i: int| 0 <= i < conjuncts(left).len() implies model::accepts(
            #[trigger] conjuncts(left)[i],
            candidate,
        ) by {
            assert(branches[i] == conjuncts(left)[i]);
        }
        assert forall|i: int| 0 <= i < conjuncts(right).len() implies model::accepts(
            #[trigger] conjuncts(right)[i],
            candidate,
        ) by {
            assert(branches[conjuncts(left).len() + i] == conjuncts(right)[i]);
        }
    }
    if model::all_accept(conjuncts(left), candidate) && model::all_accept(
        conjuncts(right),
        candidate,
    ) {
        assert forall|i: int| 0 <= i < branches.len() implies model::accepts(
            #[trigger] branches[i],
            candidate,
        ) by {
            if i < conjuncts(left).len() {
                assert(branches[i] == conjuncts(left)[i]);
            } else {
                assert(branches[i] == conjuncts(right)[i - conjuncts(left).len()]);
            }
        }
    }
}

proof fn lemma_conjuncts<T: Filterable>(expression: model::ExprV, candidate: &T)
    ensures
        model::accepts(expression, candidate) == model::all_accept(
            conjuncts(expression),
            candidate,
        ),
{
    if !(expression is And) {
        assert(conjuncts(expression)[0] == expression);
    }
}

/// A disjunction matches exactly what one of its sides matches.
pub proof fn law_or_is_disjunction<T: Filterable>(
    left: model::ExprV,
    right: model::ExprV,
    candidate: &T,
)
    ensures
        model::accepts(model::ExprV::Or(disjuncts(left) + disjuncts(right)), candidate) <==> (
        model::accepts(left, candidate) || model::accepts(right, candidate)),
{
    let branches = disjuncts(left) + disjuncts(right);
    lemma_disjuncts(left, candidate);
    lemma_disjuncts(right, candidate);
    assert(model::accepts(model::ExprV::Or(branches), candidate) == model::any_accepts(
        branches,
        candidate,
    ));
    if model::any_accepts(branches, candidate) {
        let i = choose|i: int|
            0 <= i < branches.len() && model::accepts(#[trigger] branches[i], candidate);
        if i < disjuncts(left).len() {
            assert(branches[i] == disjuncts(left)[i]);
        } else {
            assert(branches[i] == disjuncts(right)[i - disjuncts(left).len()]);
        }
    }
    if model::any_accepts(disjuncts(left), candidate) {
        let i = choose|i: int|
            0 <= i < disjuncts(left).len() && model::accepts(
                #[trigger] disjuncts(left)[i],
                candidate,
            );
        assert(branches[i] == disjuncts(left)[i]);
    }
    if model::any_accepts(disjuncts(right), candidate) {
        let i = choose|i: int|
            0 <= i < disjuncts(right).len() && model::accepts(
                #[trigger] disjuncts(right)[i],
                candidate,
            );
        assert(branches[disjuncts(left).len() + i] == disjuncts(right)[i]);
    }
}

proof fn lemma_disjuncts<T: Filterable>(expression: model::ExprV, candidate: &T)
    ensures
        model::accepts(expression, candidate) == model::any_accepts(
            disjuncts(expression),
            candidate,
        ),
{
    if !(expression is Or) {
        assert(disjuncts(expression)[0] == expression);
    }
}

/// A negation matches exactly what the expression does not match.
pub proof fn law_not_is_negation<T: Filterable>(expression: model::ExprV, candidate: &T)
    ensures
        model::accepts(model::ExprV::Not(Box::new(expression)), candidate) <==> !model::accepts(
            expression,
            candidate,
        ),
{
}

/// Over a to-many relation, `all` asks that no related value miss the
/// expression, and `none` matches exactly where `any` does not. A relation
/// without values satisfies `all` and `none` and never `any`.
pub proof fn law_relation_quantifiers_are_dual<T: Filterable>(
    expression: model::ExprV,
    related: Seq<T>,
)
    ensures
        model::many_pass(
            model::DataV::Relation(RelationQuantifier::NoneOf, Box::new(expression)),
            related,
        ) <==> !model::many_pass(
            model::DataV::Relation(RelationQuantifier::Any, Box::new(expression)),
            related,
        ),
        model::many_pass(
            model::DataV::Relation(RelationQuantifier::All, Box::new(expression)),
            related,
        ) <==> model::many_pass(
            model::DataV::Relation(
                RelationQuantifier::NoneOf,
                Box::new(model::ExprV::Not(Box::new(expression))),
            ),
            related,
        ),
        related.len() == 0 ==> model::many_pass(
            model::DataV::Relation(RelationQuantifier::All, Box::new(expression)),
            related,
        ) && model::many_pass(
            model::DataV::Relation(RelationQuantifier::NoneOf, Box::new(expression)),
            related,
        ) && !model::many_pass(
            model::DataV::Relation(RelationQuantifier::Any, Box::new(expression)),
            related,
        ),
{
    let negation = model::ExprV::Not(Box::new(expression));
    assert forall|i: int| 0 <= i < related.len() implies model::accepts(
        negation,
        &#[trigger] related[i],
    ) == !model::accepts(expression, &related[i]) by {
        law_not_is_negation(expression, &related[i]);
    }
}

/// Membership splits the UTF-8 texts in two: each is in the set or outside it,
/// never both, and other byte strings are neither. Nothing is in the empty set,
/// and to equal a value is to be in the set of that value.
pub proof fn law_text_membership_splits_the_texts(values: Seq<Seq<char>>, candidate: Seq<u8>)
    ensures
        vstd::utf8::valid_utf8(candidate) ==> (model::bytes_pass(
            Some(text_test(TextOperator::NotIn, values)),
            candidate,
        ) <==> !model::bytes_pass(Some(text_test(TextOperator::In, values)), candidate)),
        !vstd::utf8::valid_utf8(candidate) ==> !model::bytes_pass(
            Some(text_test(TextOperator::In, values)),
            candidate,
        ) && !model::bytes_pass(Some(text_test(TextOperator::NotIn, values)), candidate),
        values.len() == 0 ==> !model::bytes_pass(
            Some(text_test(TextOperator::In, values)),
            candidate,
        ),
        values.len() == 1 ==> model::bytes_pass(
            Some(text_test(TextOperator::Eq, values)),
            candidate,
        ) == model::bytes_pass(Some(text_test(TextOperator::In, values)), candidate),
{
    if values.len() == 1 {
        let text = vstd::utf8::decode_utf8(candidate);
        if text == values[0] {
            assert(values.contains(text));
        }
    }
}

/// The test of a text against operands, without a pattern.
pub open spec fn text_test(operator: TextOperator, values: Seq<Seq<char>>) -> model::ScalarV {
    model::ScalarV::Text(model::TextV { operator, values, regex: None })
}

/// Membership and order split the integers: each is in a set or outside it, and
/// against one bound exactly one of below, equal and above holds, where `lte`
/// and `gte` add the bound itself.
pub proof fn law_number_tests_split_the_integers(values: Seq<int>, bound: int, candidate: int)
    ensures
        model::number_passes(SetOperator::NotIn, values, candidate) <==> !model::number_passes(
            SetOperator::In,
            values,
            candidate,
        ),
        values.len() == 0 ==> !model::number_passes(SetOperator::In, values, candidate),
        model::number_passes(SetOperator::Eq, seq![bound], candidate) <==> candidate == bound,
        model::number_passes(SetOperator::Lte, seq![bound], candidate) <==> (model::number_passes(
            SetOperator::Lt,
            seq![bound],
            candidate,
        ) || model::number_passes(SetOperator::Eq, seq![bound], candidate)),
        model::number_passes(SetOperator::Gt, seq![bound], candidate) <==> !model::number_passes(
            SetOperator::Lte,
            seq![bound],
            candidate,
        ),
        model::number_passes(SetOperator::Gte, seq![bound], candidate) <==> !model::number_passes(
            SetOperator::Lt,
            seq![bound],
            candidate,
        ),
{
    assert(seq![bound][0] == bound);
    if candidate == bound {
        assert(seq![bound].contains(candidate));
    }
}

impl<T> Clone for FilterExpr<T> {
    fn clone(&self) -> (copy: Self)
        ensures
            copy@ == self@,
    {
        self.copy()
    }
}

} // verus!
