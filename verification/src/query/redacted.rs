//! Renderings of filter expressions that show no operand.

use vstd::prelude::*;
use vstd::string::*;

use crate::query::error::FilterExpressionErrorKind;
use crate::query::expression::FilterExpr;
use crate::query::matching;
use crate::query::matching::ExprData;
use crate::query::model;
use crate::query::outside;
use crate::query::private::Predicate;
use crate::text;
use crate::text::render_open_struct;

verus! {

impl FilterExpressionErrorKind {
    /// The name of a reason, in contracts.
    pub open spec fn spelled_name(self) -> Seq<char> {
        match self {
            FilterExpressionErrorKind::InvalidStructure => "InvalidStructure"@,
            FilterExpressionErrorKind::UnknownOperator => "UnknownOperator"@,
            FilterExpressionErrorKind::UnknownQuantifier => "UnknownQuantifier"@,
            FilterExpressionErrorKind::UnknownField => "UnknownField"@,
            FilterExpressionErrorKind::InvalidTarget => "InvalidTarget"@,
            FilterExpressionErrorKind::InvalidLiteral => "InvalidLiteral"@,
            FilterExpressionErrorKind::InvalidRegex => "InvalidRegex"@,
            FilterExpressionErrorKind::UnsupportedVersion => "UnsupportedVersion"@,
        }
    }

    /// The name of the reason.
    pub fn name(self) -> (name: &'static str)
        ensures
            name@ == self.spelled_name(),
    {
        match self {
            FilterExpressionErrorKind::InvalidStructure => "InvalidStructure",
            FilterExpressionErrorKind::UnknownOperator => "UnknownOperator",
            FilterExpressionErrorKind::UnknownQuantifier => "UnknownQuantifier",
            FilterExpressionErrorKind::UnknownField => "UnknownField",
            FilterExpressionErrorKind::InvalidTarget => "InvalidTarget",
            FilterExpressionErrorKind::InvalidLiteral => "InvalidLiteral",
            FilterExpressionErrorKind::InvalidRegex => "InvalidRegex",
            FilterExpressionErrorKind::UnsupportedVersion => "UnsupportedVersion",
        }
    }
}

/// How an expression is rendered: its shape, and the target, field and
/// operator of each predicate, without an operand.
pub open spec fn rendering(expression: model::ExprV) -> Seq<char>
    decreases expression,
{
    match expression {
        model::ExprV::Predicate(predicate) => {
            let named = "target: "@ + outside::debug_quoted(model::named_target(predicate.target))
                + ", field: "@ + outside::debug_quoted(predicate.field);
            match predicate.data {
                model::DataV::Relation(quantifier, inner) => "Relation { "@ + named
                    + ", quantifier: "@ + outside::debug_quoted(quantifier.spelling())
                    + ", expression: "@ + rendering(*inner) + " }"@,
                data => "Predicate { "@ + named + ", operator: "@ + outside::debug_quoted(
                    data.operator_spelling(),
                ) + " }"@,
            }
        },
        model::ExprV::And(branches) => "And(["@ + renderings(branches) + "])"@,
        model::ExprV::Or(branches) => "Or(["@ + renderings(branches) + "])"@,
        model::ExprV::Not(inner) => "Not("@ + rendering(*inner) + ")"@,
        model::ExprV::Invalid(reason) => "Invalid("@ + reason.spelled_name() + ")"@,
    }
}

/// How the branches of a junction are rendered.
pub open spec fn renderings(expressions: Seq<model::ExprV>) -> Seq<char>
    decreases expressions,
{
    if expressions.len() == 0 {
        Seq::empty()
    } else {
        let head = expressions.drop_last();
        let last = rendering(expressions[expressions.len() - 1]);
        if head.len() == 0 {
            last
        } else {
            renderings(head) + ", "@ + last
        }
    }
}

impl ExprData {
    /// Render the expression without its operands.
    pub fn redacted(&self) -> (text: String)
        ensures
            text@ == rendering(self@),
        decreases self,
    {
        match self {
            ExprData::Predicate(predicate) => {
                let relation = predicate.relation_internal();
                let mut text = if relation.is_some() {
                    "Relation { ".to_owned()
                } else {
                    "Predicate { ".to_owned()
                };
                let ghost opening = text@;
                text.append("target: ");
                text.append(outside::quote(predicate.target()).as_str());
                text.append(", field: ");
                text.append(outside::quote(predicate.field()).as_str());
                let ghost named = "target: "@ + outside::debug_quoted(
                    model::named_target(predicate@.target),
                ) + ", field: "@ + outside::debug_quoted(predicate@.field);
                assert(text@ =~= opening + named);
                match relation {
                    Some(relation) => {
                        text.append(", quantifier: ");
                        text.append(outside::quote(relation.quantifier.label()).as_str());
                        text.append(", expression: ");
                        text.append(relation.expression.redacted().as_str());
                    },
                    None => {
                        text.append(", operator: ");
                        text.append(outside::quote(predicate.operator_label()).as_str());
                    },
                }
                text.append(" }");
                text
            },
            ExprData::And(branches) => {
                proof {
                    matching::lemma_junction_views(*branches);
                }
                let mut text = "And([".to_owned();
                text.append(redacted_branches(branches).as_str());
                text.append("])");
                text
            },
            ExprData::Or(branches) => {
                proof {
                    matching::lemma_junction_views(*branches);
                }
                let mut text = "Or([".to_owned();
                text.append(redacted_branches(branches).as_str());
                text.append("])");
                text
            },
            ExprData::Not(inner) => {
                let mut text = "Not(".to_owned();
                text.append(inner.redacted().as_str());
                text.append(")");
                text
            },
            ExprData::Invalid(reason) => {
                let mut text = "Invalid(".to_owned();
                text.append(reason.name());
                text.append(")");
                text
            },
        }
    }
}

/// Render the branches of a junction without their operands.
fn redacted_branches(branches: &Vec<ExprData>) -> (text: String)
    ensures
        text@ == renderings(matching::views(branches@)),
    decreases branches,
{
    let ghost expressions = matching::views(branches@);
    proof {
        reveal_strlit("");
    }
    let mut text = "".to_owned();
    let mut index: usize = 0;
    assert(text@ =~= renderings(expressions.take(0)));
    while index < branches.len()
        invariant
            index <= branches@.len(),
            expressions == matching::views(branches@),
            text@ == renderings(expressions.take(index as int)),
            index == 0 ==> text@.len() == 0,
        decreases branches@.len() - index,
    {
        proof {
            let longer = expressions.take(index + 1);
            assert(longer.drop_last() =~= expressions.take(index as int));
            assert(longer[index as int] == branches@[index as int]@);
        }
        if index > 0 {
            text.append(", ");
        }
        text.append(branches[index].redacted().as_str());
        index += 1;
        assert(text@ =~= renderings(expressions.take(index as int)));
    }
    assert(expressions.take(expressions.len() as int) =~= expressions);
    text
}

impl<T> FilterExpr<T> {
    /// Render the expression without its operands.
    pub fn redacted(&self) -> (text: String)
        ensures
            text@ == rendering(self@),
    {
        self.data().redacted()
    }
}

impl Predicate {
    /// Render which field is tested, and nothing of what it is tested against.
    pub fn debug_text(&self) -> (rendering: String)
        ensures
            rendering@ == text::open_rendering(
                "Predicate"@,
                seq![("field"@, outside::debug_quoted(self@.field))],
            ),
    {
        let mut members: Vec<(&'static str, String)> = Vec::new();
        members.push(("field", outside::quote(self.field())));
        assert(text::member_views(members@) =~= seq![
            ("field"@, outside::debug_quoted(self@.field)),
        ]);
        render_open_struct("Predicate", &members)
    }
}

/// Whether two expressions differ in their operands only.
pub open spec fn same_outline(left: model::ExprV, right: model::ExprV) -> bool
    decreases left,
{
    match (left, right) {
        (model::ExprV::Predicate(left), model::ExprV::Predicate(right)) => {
            &&& left.target == right.target
            &&& left.field == right.field
            &&& match (left.data, right.data) {
                (
                    model::DataV::Relation(left_quantifier, left_inner),
                    model::DataV::Relation(right_quantifier, right_inner),
                ) => left_quantifier == right_quantifier && same_outline(*left_inner, *right_inner),
                (model::DataV::Relation(..), _) => false,
                (_, model::DataV::Relation(..)) => false,
                (left, right) => left.operator_spelling() == right.operator_spelling(),
            }
        },
        (model::ExprV::And(left), model::ExprV::And(right)) => same_outlines(left, right),
        (model::ExprV::Or(left), model::ExprV::Or(right)) => same_outlines(left, right),
        (model::ExprV::Not(left), model::ExprV::Not(right)) => same_outline(*left, *right),
        (model::ExprV::Invalid(left), model::ExprV::Invalid(right)) => left == right,
        _ => false,
    }
}

/// Whether two lists of expressions differ in their operands only.
pub open spec fn same_outlines(left: Seq<model::ExprV>, right: Seq<model::ExprV>) -> bool
    decreases left,
{
    left.len() == right.len() && forall|i: int|
        0 <= i < left.len() ==> same_outline(#[trigger] left[i], right[i])
}

/// A rendering shows nothing of the operands: expressions that differ in their
/// operands only are rendered alike.
pub proof fn law_renderings_hide_operands(left: model::ExprV, right: model::ExprV)
    requires
        same_outline(left, right),
    ensures
        rendering(left) == rendering(right),
    decreases left,
{
    match (left, right) {
        (model::ExprV::Predicate(one), model::ExprV::Predicate(other)) => {
            match (one.data, other.data) {
                (model::DataV::Relation(_, one_inner), model::DataV::Relation(_, other_inner)) => {
                    law_renderings_hide_operands(*one_inner, *other_inner);
                },
                _ => {},
            }
        },
        (model::ExprV::And(one), model::ExprV::And(other)) => {
            lemma_branches_hide_operands(one, other);
        },
        (model::ExprV::Or(one), model::ExprV::Or(other)) => {
            lemma_branches_hide_operands(one, other);
        },
        (model::ExprV::Not(one), model::ExprV::Not(other)) => {
            law_renderings_hide_operands(*one, *other);
        },
        _ => {},
    }
}

/// Branches that differ in their operands only are rendered alike.
proof fn lemma_branches_hide_operands(left: Seq<model::ExprV>, right: Seq<model::ExprV>)
    requires
        same_outlines(left, right),
    ensures
        renderings(left) == renderings(right),
    decreases left,
{
    if left.len() > 0 {
        let left_head = left.drop_last();
        let right_head = right.drop_last();
        assert forall|i: int| 0 <= i < left_head.len() implies same_outline(
            #[trigger] left_head[i],
            right_head[i],
        ) by {
            assert(same_outline(left[i], right[i]));
        }
        lemma_branches_hide_operands(left_head, right_head);
        law_renderings_hide_operands(left[left.len() - 1], right[right.len() - 1]);
    }
}

/// The rendering of an expression shows its shape, its targets, fields and
/// operators, and no operand.
pub proof fn law_renderings_show_the_shape(
    branches: Seq<model::ExprV>,
    inner: model::ExprV,
    predicate: model::PredicateV,
)
    ensures
        rendering(model::ExprV::And(branches)) == "And(["@ + renderings(branches) + "])"@,
        rendering(model::ExprV::Or(branches)) == "Or(["@ + renderings(branches) + "])"@,
        rendering(model::ExprV::Not(Box::new(inner))) == "Not("@ + rendering(inner) + ")"@,
        renderings(Seq::empty()) == Seq::<char>::empty(),
        renderings(seq![inner]) == rendering(inner),
        branches.len() > 0 ==> renderings(branches.push(inner)) == renderings(branches) + ", "@
            + rendering(inner),
        !(predicate.data is Relation) ==> rendering(model::ExprV::Predicate(predicate))
            == "Predicate { "@ + ("target: "@ + outside::debug_quoted(
            model::named_target(predicate.target),
        ) + ", field: "@ + outside::debug_quoted(predicate.field)) + ", operator: "@
            + outside::debug_quoted(predicate.data.operator_spelling()) + " }"@,
{
    reveal_with_fuel(rendering, 2);
    reveal_with_fuel(renderings, 2);
    let one = seq![inner];
    assert(one.drop_last() =~= Seq::empty());
    let longer = branches.push(inner);
    assert(longer.drop_last() =~= branches);
    assert(longer[longer.len() - 1] == inner);
}

/// The rendering of a relation shows its quantifier and the rendering of its
/// expression, and that of an expression that could not be built its reason.
pub proof fn law_relations_are_rendered(
    predicate: model::PredicateV,
    quantifier: crate::query::grammar::RelationQuantifier,
    inner: model::ExprV,
    reason: FilterExpressionErrorKind,
)
    requires
        predicate.data == model::DataV::Relation(quantifier, Box::new(inner)),
    ensures
        rendering(model::ExprV::Predicate(predicate)) == "Relation { "@ + ("target: "@
            + outside::debug_quoted(model::named_target(predicate.target)) + ", field: "@
            + outside::debug_quoted(predicate.field)) + ", quantifier: "@ + outside::debug_quoted(
            quantifier.spelling(),
        ) + ", expression: "@ + rendering(inner) + " }"@,
        rendering(model::ExprV::Invalid(reason)) == "Invalid("@ + reason.spelled_name() + ")"@,
{
    reveal_with_fuel(rendering, 2);
}

} // verus!
