//! The mathematical model of the version 1 wire form.

use vstd::prelude::*;

use crate::decimal;
use crate::json;
use crate::json::FloatShape;
use crate::json::Number;
use crate::query::error::FilterExpressionErrorKind;
use crate::query::filterable::Filterable;
use crate::query::grammar::RelationQuantifier;
use crate::query::grammar::TextOperator;
use crate::query::grammar::MAX_EXPRESSION_DEPTH;
use crate::query::grammar::MAX_EXPRESSION_NODES;
use crate::query::grammar::MAX_SET_VALUES;
use crate::query::model;
use crate::query::outside;
use crate::query::wire::WireVersion;

verus! {

/// A literal or a set of literals.
#[verifier::ext_equal]
pub ghost enum WireValueV {
    String(Seq<char>),
    Bool(bool),
    Strings(Seq<Seq<char>>),
    Bools(Seq<bool>),
    Empty,
    Other,
}

/// An expression object before its operator is looked at.
#[verifier::ext_equal]
pub ghost struct RawNodeV {
    pub invalid_member: bool,
    pub op: Option<WireValueV>,
    pub args: Option<RawArgsV>,
    pub expression: Option<RawExpressionV>,
    pub field: Option<WireValueV>,
    pub value: Option<WireValueV>,
    pub quantifier: Option<WireValueV>,
}

/// The argument list of an expression object.
#[verifier::ext_equal]
pub ghost enum RawArgsV {
    Nodes(Seq<RawNodeV>),
    Other,
}

/// The nested expression of an expression object.
#[verifier::ext_equal]
pub ghost enum RawExpressionV {
    Node(Box<RawNodeV>),
    Other,
}

/// The version that a document denotes.
pub open spec fn version(document: json::JsonV) -> WireVersion {
    match document {
        json::JsonV::Number(Number::Signed(value)) => if value == 1 {
            WireVersion::One
        } else {
            WireVersion::Unsupported
        },
        json::JsonV::Number(Number::Unsigned(value)) => if value == 1 {
            WireVersion::One
        } else {
            WireVersion::Unsupported
        },
        json::JsonV::Number(Number::Float(FloatShape::One)) => WireVersion::One,
        json::JsonV::Number(Number::Float(FloatShape::Integral)) => WireVersion::Unsupported,
        _ => WireVersion::Invalid,
    }
}

/// Whether every document of a list is a string.
pub open spec fn all_strings(values: Seq<json::JsonV>) -> bool {
    forall|i: int| 0 <= i < values.len() ==> #[trigger] values[i] is String
}

/// Whether every document of a list is a boolean.
pub open spec fn all_bools(values: Seq<json::JsonV>) -> bool {
    forall|i: int| 0 <= i < values.len() ==> #[trigger] values[i] is Bool
}

/// The literal that a document denotes. An array is a set of literals of one
/// family.
pub open spec fn wire_value(document: json::JsonV) -> WireValueV {
    match document {
        json::JsonV::String(value) => WireValueV::String(value),
        json::JsonV::Bool(value) => WireValueV::Bool(value),
        json::JsonV::Array(values) => if values.len() == 0 {
            WireValueV::Empty
        } else if all_strings(values) {
            WireValueV::Strings(values.map_values(|value: json::JsonV| value->String_0))
        } else if all_bools(values) {
            WireValueV::Bools(values.map_values(|value: json::JsonV| value->Bool_0))
        } else {
            WireValueV::Other
        },
        _ => WireValueV::Other,
    }
}

/// The position of the first member with a name, or the number of members.
pub open spec fn position(members: Seq<json::MemberV>, name: Seq<char>) -> int
    decreases members.len(),
{
    if members.len() == 0 {
        0
    } else {
        let earlier = position(members.drop_last(), name);
        if earlier < members.len() - 1 {
            earlier
        } else if members.last().name == name {
            members.len() - 1
        } else {
            members.len() as int
        }
    }
}

/// Whether a member has an unknown name, or one that occurred before.
pub open spec fn has_invalid_member(members: Seq<json::MemberV>, known: Seq<Seq<char>>) -> bool {
    exists|i: int|
        0 <= i < members.len() && !accepted_member(#[trigger] members.take(i), members[i], known)
}

/// Whether a member's name is known and did not occur before.
pub open spec fn accepted_member(
    earlier: Seq<json::MemberV>,
    member: json::MemberV,
    known: Seq<Seq<char>>,
) -> bool {
    known.contains(member.name) && position(earlier, member.name) == earlier.len()
}

/// The names that members of an expression object have.
pub open spec fn node_names() -> Seq<Seq<char>> {
    seq!["op"@, "args"@, "expr"@, "field"@, "value"@, "quantifier"@]
}

/// The names that members of an envelope have.
pub open spec fn envelope_names() -> Seq<Seq<char>> {
    seq!["version"@, "target"@, "expr"@]
}

/// The literal of the first member with a name.
pub open spec fn member_value(members: Seq<json::MemberV>, name: Seq<char>) -> Option<WireValueV> {
    let found = position(members, name);
    if 0 <= found < members.len() {
        Some(wire_value(members[found].value))
    } else {
        None
    }
}

/// The nested expression of the first member with a name.
pub open spec fn member_expression(members: Seq<json::MemberV>, name: Seq<char>) -> Option<
    RawExpressionV,
>
    decreases members, 0int,
{
    let found = position(members, name);
    if 0 <= found < members.len() {
        Some(raw_expression(members[found].value))
    } else {
        None
    }
}

/// The argument list of the first member with a name.
pub open spec fn member_args(members: Seq<json::MemberV>, name: Seq<char>) -> Option<RawArgsV>
    decreases members, 0int,
{
    let found = position(members, name);
    if 0 <= found < members.len() {
        Some(raw_args(members[found].value))
    } else {
        None
    }
}

/// The expression object that members denote.
pub open spec fn raw_node(members: Seq<json::MemberV>) -> RawNodeV
    decreases members, 1int,
{
    RawNodeV {
        invalid_member: has_invalid_member(members, node_names()),
        op: member_value(members, "op"@),
        args: member_args(members, "args"@),
        expression: member_expression(members, "expr"@),
        field: member_value(members, "field"@),
        value: member_value(members, "value"@),
        quantifier: member_value(members, "quantifier"@),
    }
}

/// The nested expression that a document denotes.
pub open spec fn raw_expression(document: json::JsonV) -> RawExpressionV
    decreases document, 0int,
{
    match document {
        json::JsonV::Object(members) => RawExpressionV::Node(Box::new(raw_node(members))),
        _ => RawExpressionV::Other,
    }
}

/// Whether every document of a list is an object.
pub open spec fn all_objects(values: Seq<json::JsonV>) -> bool {
    forall|i: int| 0 <= i < values.len() ==> #[trigger] values[i] is Object
}

/// The expression objects that a list of objects denotes.
pub open spec fn raw_nodes(values: Seq<json::JsonV>) -> Seq<RawNodeV>
    decreases values, 0int,
{
    Seq::new(
        values.len(),
        |i: int|
            if 0 <= i < values.len() {
                match values[i] {
                    json::JsonV::Object(members) => raw_node(members),
                    _ => arbitrary(),
                }
            } else {
                arbitrary()
            },
    )
}

/// The argument list that a document denotes.
pub open spec fn raw_args(document: json::JsonV) -> RawArgsV
    decreases document, 0int,
{
    match document {
        json::JsonV::Array(values) => if all_objects(values) {
            RawArgsV::Nodes(raw_nodes(values))
        } else {
            RawArgsV::Other
        },
        _ => RawArgsV::Other,
    }
}

impl RawNodeV {
    /// Whether only the members of a scalar test are there.
    pub open spec fn only_scalar(self) -> bool {
        self.args is None && self.expression is None && self.quantifier is None
    }

    /// Whether only the members of a junction are there.
    pub open spec fn only_args(self) -> bool {
        self.expression is None && self.field is None && self.value is None && self.quantifier
            is None
    }

    /// Whether only the members of a negation are there.
    pub open spec fn only_expression(self) -> bool {
        self.args is None && self.field is None && self.value is None && self.quantifier is None
    }

    /// Whether only the members of a relation are there.
    pub open spec fn only_relation(self) -> bool {
        self.args is None && self.value is None
    }
}

/// Whether a literal is one string.
pub open spec fn is_string(value: Option<WireValueV>) -> bool {
    value is Some && value->0 is String
}

/// Whether a value has the shape that a scalar operator takes.
pub open spec fn scalar_shape(operator: TextOperator, value: Option<WireValueV>) -> bool {
    match value {
        None => false,
        Some(value) => match operator {
            TextOperator::Eq => value is String || value is Bool,
            TextOperator::In | TextOperator::NotIn => value is Strings || value is Bools || value
                is Empty,
            _ => value is String,
        },
    }
}

/// Whether a nested expression is there and well structured.
pub open spec fn nested_shape(expression: Option<RawExpressionV>) -> bool
    decreases expression, 1int,
{
    match expression {
        Some(RawExpressionV::Node(node)) => structured(*node),
        _ => false,
    }
}

/// Whether an argument list holds at least two well-structured expressions.
pub open spec fn args_shape(args: Option<RawArgsV>) -> bool
    decreases args, 1int,
{
    match args {
        Some(RawArgsV::Nodes(nodes)) => nodes.len() >= 2 && all_structured(nodes),
        _ => false,
    }
}

/// Whether every expression of a list is well structured.
pub open spec fn all_structured(nodes: Seq<RawNodeV>) -> bool
    decreases nodes, 1int,
{
    forall|i: int| 0 <= i < nodes.len() ==> structured(#[trigger] nodes[i])
}

/// Whether an expression with an operator outside the vocabulary has the shape
/// of some expression.
pub open spec fn unknown_shape(node: RawNodeV) -> bool
    decreases node, 1int,
{
    if node.only_scalar() && is_string(node.field) && node.value is Some && !(node.value->0
        is Other) {
        true
    } else if node.only_args() {
        args_shape(node.args)
    } else if node.only_expression() || (node.only_relation() && is_string(node.field)
        && is_string(node.quantifier)) {
        nested_shape(node.expression)
    } else {
        false
    }
}

/// Whether an expression has the shape that its operator asks for.
pub open spec fn structured(node: RawNodeV) -> bool
    decreases node, 2int,
{
    if node.invalid_member {
        false
    } else {
        match node.op {
            Some(WireValueV::String(operator)) => if operator == "and"@ || operator == "or"@ {
                node.only_args() && args_shape(node.args)
            } else if operator == "not"@ {
                node.only_expression() && nested_shape(node.expression)
            } else if operator == "relation"@ {
                node.only_relation() && is_string(node.field) && is_string(node.quantifier)
                    && nested_shape(node.expression)
            } else {
                match TextOperator::spelled(operator) {
                    Some(scalar) => if scalar.orders() {
                        unknown_shape(node)
                    } else {
                        node.only_scalar() && is_string(node.field) && scalar_shape(
                            scalar,
                            node.value,
                        )
                    },
                    None => unknown_shape(node),
                }
            },
            _ => false,
        }
    }
}

/// Whether an expression nests no deeper than a limit.
pub open spec fn depth_within(node: RawNodeV, limit: int) -> bool
    decreases node, 0int,
{
    &&& limit > 0
    &&& node.args matches Some(RawArgsV::Nodes(nodes)) ==> all_depth_within(nodes, limit - 1)
    &&& node.expression matches Some(RawExpressionV::Node(inner)) ==> depth_within(
        *inner,
        limit - 1,
    )
}

/// Whether every expression of a list nests no deeper than a limit.
pub open spec fn all_depth_within(nodes: Seq<RawNodeV>, limit: int) -> bool
    decreases nodes, 0int,
{
    forall|i: int| 0 <= i < nodes.len() ==> depth_within(#[trigger] nodes[i], limit)
}

/// The number of expressions in an expression, itself counted.
pub open spec fn node_count(node: RawNodeV) -> nat
    decreases node, 0int,
{
    1 + (match node.args {
        Some(RawArgsV::Nodes(nodes)) => total_count(nodes),
        _ => 0,
    }) + (match node.expression {
        Some(RawExpressionV::Node(inner)) => node_count(*inner),
        _ => 0,
    })
}

/// The number of expressions in a list of expressions.
pub open spec fn total_count(nodes: Seq<RawNodeV>) -> nat
    decreases nodes, 0int,
{
    if nodes.len() == 0 {
        0
    } else {
        total_count(nodes.drop_last()) + node_count(nodes[nodes.len() - 1])
    }
}

/// The number of literals in a value.
pub open spec fn literal_count(value: Option<WireValueV>) -> nat {
    match value {
        Some(WireValueV::Strings(values)) => values.len(),
        Some(WireValueV::Bools(values)) => values.len(),
        _ => 0,
    }
}

/// Whether no set of literals in an expression exceeds the limit.
pub open spec fn sets_within(node: RawNodeV) -> bool
    decreases node, 0int,
{
    &&& literal_count(node.value) <= MAX_SET_VALUES
    &&& node.args matches Some(RawArgsV::Nodes(nodes)) ==> all_sets_within(nodes)
    &&& node.expression matches Some(RawExpressionV::Node(inner)) ==> sets_within(*inner)
}

/// Whether no set of literals in a list of expressions exceeds the limit.
pub open spec fn all_sets_within(nodes: Seq<RawNodeV>) -> bool
    decreases nodes, 0int,
{
    forall|i: int| 0 <= i < nodes.len() ==> sets_within(#[trigger] nodes[i])
}

/// Whether an expression keeps the complexity limits.
pub open spec fn within_limits(node: RawNodeV) -> bool {
    depth_within(node, MAX_EXPRESSION_DEPTH as int) && node_count(node) <= MAX_EXPRESSION_NODES
        && sets_within(node)
}

/// The reason that stands for a wrong shape.
pub open spec fn misshapen<T>() -> Result<T, FilterExpressionErrorKind> {
    Err(FilterExpressionErrorKind::InvalidStructure)
}

/// The scalar test that a field, an operator and a literal denote.
pub open spec fn built_scalar(operator: Seq<char>, node: RawNodeV) -> Result<
    model::ExprV,
    FilterExpressionErrorKind,
> {
    match TextOperator::spelled(operator) {
        None => Err(FilterExpressionErrorKind::UnknownOperator),
        Some(operator) => match node.field {
            Some(WireValueV::String(field)) => if !model::wire_name(field) {
                Err(FilterExpressionErrorKind::UnknownField)
            } else {
                match wire_data(operator, node.value) {
                    Some(data) => Ok(
                        model::ExprV::Predicate(model::PredicateV { target: None, field, data }),
                    ),
                    None => misshapen(),
                }
            },
            _ => misshapen(),
        },
    }
}

/// The unsettled test that an operator and a literal denote.
pub open spec fn wire_data(operator: TextOperator, value: Option<WireValueV>) -> Option<model::DataV> {
    match value {
        Some(WireValueV::String(value)) => Some(
            model::DataV::WireString { operator, values: seq![value], resolved: None },
        ),
        Some(WireValueV::Strings(values)) => Some(
            model::DataV::WireString { operator, values, resolved: None },
        ),
        Some(WireValueV::Bool(value)) => match operator.as_set() {
            Some(operator) => Some(
                model::DataV::WireBool { operator, values: seq![value], resolved: false },
            ),
            None => None,
        },
        Some(WireValueV::Bools(values)) => match operator.as_set() {
            Some(operator) => Some(model::DataV::WireBool { operator, values, resolved: false }),
            None => None,
        },
        Some(WireValueV::Empty) => match operator.as_set() {
            Some(operator) => Some(model::DataV::WireEmpty { operator, resolved: None }),
            None => None,
        },
        _ => None,
    }
}

/// An expression, or the mark of why it could not be built.
pub open spec fn marked(built: Result<model::ExprV, FilterExpressionErrorKind>) -> model::ExprV {
    match built {
        Ok(expression) => expression,
        Err(reason) => model::ExprV::Invalid(reason),
    }
}

/// The expressions that a list of expression objects denotes.
pub open spec fn built_all(nodes: Seq<RawNodeV>) -> Seq<model::ExprV>
    decreases nodes, 0int,
{
    Seq::new(
        nodes.len(),
        |i: int|
            if 0 <= i < nodes.len() {
                marked(built(nodes[i]))
            } else {
                arbitrary()
            },
    )
}

/// The branches that an expression contributes to a junction: a junction of
/// the same kind contributes its own branches.
pub open spec fn contribution(conjunction: bool, expression: model::ExprV) -> Seq<model::ExprV> {
    match expression {
        model::ExprV::And(branches) => if conjunction {
            branches
        } else {
            seq![expression]
        },
        model::ExprV::Or(branches) => if conjunction {
            seq![expression]
        } else {
            branches
        },
        _ => seq![expression],
    }
}

/// The branches of a junction of expressions, in order.
pub open spec fn flattened(conjunction: bool, expressions: Seq<model::ExprV>) -> Seq<model::ExprV>
    decreases expressions.len(),
{
    if expressions.len() == 0 {
        Seq::empty()
    } else {
        flattened(conjunction, expressions.drop_last()) + contribution(
            conjunction,
            expressions.last(),
        )
    }
}

/// The relation that an expression object denotes.
pub open spec fn built_relation(node: RawNodeV) -> Result<model::ExprV, FilterExpressionErrorKind>
    decreases node, 0int,
{
    match node.quantifier {
        Some(WireValueV::String(label)) => match RelationQuantifier::spelled(label) {
            None => Err(FilterExpressionErrorKind::UnknownQuantifier),
            Some(quantifier) => match node.field {
                Some(WireValueV::String(field)) => if !model::wire_name(field) {
                    Err(FilterExpressionErrorKind::UnknownField)
                } else {
                    match node.expression {
                        Some(RawExpressionV::Node(inner)) => Ok(
                            model::ExprV::Predicate(
                                model::PredicateV {
                                    target: None,
                                    field,
                                    data: model::DataV::Relation(
                                        quantifier,
                                        Box::new(marked(built(*inner))),
                                    ),
                                },
                            ),
                        ),
                        _ => misshapen(),
                    }
                },
                _ => misshapen(),
            },
        },
        _ => misshapen(),
    }
}

/// The expression that an expression object denotes.
pub open spec fn built(node: RawNodeV) -> Result<model::ExprV, FilterExpressionErrorKind>
    decreases node, 1int,
{
    match node.op {
        Some(WireValueV::String(operator)) => if operator == "and"@ || operator == "or"@ {
            match node.args {
                Some(RawArgsV::Nodes(nodes)) => {
                    let branches = flattened(operator == "and"@, built_all(nodes));
                    Ok(
                        if operator == "and"@ {
                            model::ExprV::And(branches)
                        } else {
                            model::ExprV::Or(branches)
                        },
                    )
                },
                _ => misshapen(),
            }
        } else if operator == "not"@ {
            match node.expression {
                Some(RawExpressionV::Node(inner)) => match built(*inner) {
                    Ok(expression) => Ok(model::ExprV::Not(Box::new(expression))),
                    Err(reason) => Err(reason),
                },
                _ => misshapen(),
            }
        } else if operator == "relation"@ {
            built_relation(node)
        } else {
            built_scalar(operator, node)
        },
        _ => misshapen(),
    }
}

/// The expression that an envelope denotes for a target. The checks come in
/// this order: the envelope's shape, the expression's shape and complexity,
/// the version, the target, the operators, and the fields and literals.
pub open spec fn decoded<T: Filterable>(document: json::JsonV) -> Result<
    model::ExprV,
    FilterExpressionErrorKind,
> {
    match document {
        json::JsonV::Object(members) => {
            let version_at = position(members, "version"@);
            let target = member_value(members, "target"@);
            let expression = member_expression(members, "expr"@);
            if has_invalid_member(members, envelope_names()) || version_at == members.len() {
                misshapen()
            } else {
                match (target, expression) {
                    (Some(WireValueV::String(target)), Some(RawExpressionV::Node(node))) => {
                        if !structured(*node) || !within_limits(*node) {
                            misshapen()
                        } else {
                            match version(members[version_at].value) {
                                WireVersion::One => decoded_node::<T>(target, *node),
                                WireVersion::Unsupported => Err(
                                    FilterExpressionErrorKind::UnsupportedVersion,
                                ),
                                WireVersion::Invalid => misshapen(),
                            }
                        }
                    },
                    _ => misshapen(),
                }
            }
        },
        _ => misshapen(),
    }
}

/// The expression that a well-structured object denotes for a target.
pub open spec fn decoded_node<T: Filterable>(target: Seq<char>, node: RawNodeV) -> Result<
    model::ExprV,
    FilterExpressionErrorKind,
> {
    if !model::wire_name(target) || target != T::target_name() {
        Err(FilterExpressionErrorKind::InvalidTarget)
    } else {
        match built(node) {
            Err(reason) => Err(reason),
            Ok(expression) => {
                let (reason, settled) = model::validated::<T>(expression);
                match reason {
                    Some(reason) => Err(reason),
                    None => if model::resolved(settled) {
                        Ok(settled)
                    } else {
                        misshapen()
                    },
                }
            },
        }
    }
}

/// A member in contracts.
pub open spec fn named(name: Seq<char>, value: json::JsonV) -> json::MemberV {
    json::MemberV { name, value }
}

/// A set of literals, or the first one where the operator takes one.
pub open spec fn literals(set: bool, values: Seq<json::JsonV>) -> Result<
    json::JsonV,
    FilterExpressionErrorKind,
> {
    if set {
        Ok(json::JsonV::Array(values))
    } else if values.len() > 0 {
        Ok(values[0])
    } else {
        misshapen()
    }
}

/// The literal that a scalar test travels with. Integers travel as decimal
/// text.
pub open spec fn scalar_value(scalar: model::ScalarV) -> Result<json::JsonV, FilterExpressionErrorKind> {
    match scalar {
        model::ScalarV::Text(test) => literals(
            test.operator is In || test.operator is NotIn,
            test.values.map_values(|value: Seq<char>| json::JsonV::String(value)),
        ),
        model::ScalarV::Bool(set) => literals(
            set.operator.takes_set(),
            set.values.map_values(|value: bool| json::JsonV::Bool(value)),
        ),
        model::ScalarV::Signed(set) => literals(
            set.operator.takes_set(),
            set.values.map_values(
                |value: i128| json::JsonV::String(decimal::signed_decimal(value as int)),
            ),
        ),
        model::ScalarV::Unsigned(set) => literals(
            set.operator.takes_set(),
            set.values.map_values(
                |value: u128| json::JsonV::String(decimal::signed_decimal(value as int)),
            ),
        ),
        model::ScalarV::Enum(set) => literals(
            set.operator.takes_set(),
            set.values.map_values(|value: Seq<char>| json::JsonV::String(value)),
        ),
    }
}

/// The documents of a list of expressions, or the first reason against one.
pub open spec fn encoded_all(expressions: Seq<model::ExprV>) -> Result<
    Seq<json::JsonV>,
    FilterExpressionErrorKind,
>
    decreases expressions, 0int,
{
    if expressions.len() == 0 {
        Ok(Seq::empty())
    } else {
        match encoded_all(expressions.drop_last()) {
            Err(reason) => Err(reason),
            Ok(earlier) => match encoded(expressions[expressions.len() - 1]) {
                Err(reason) => Err(reason),
                Ok(document) => Ok(earlier.push(document)),
            },
        }
    }
}

/// The document of a junction.
pub open spec fn junction_document(
    operator: Seq<char>,
    branches: Result<Seq<json::JsonV>, FilterExpressionErrorKind>,
) -> Result<json::JsonV, FilterExpressionErrorKind> {
    match branches {
        Err(reason) => Err(reason),
        Ok(documents) => Ok(
            json::JsonV::Object(
                seq![
                    named("op"@, json::JsonV::String(operator)),
                    named("args"@, json::JsonV::Array(documents)),
                ],
            ),
        ),
    }
}

/// The document of an expression.
pub open spec fn encoded(expression: model::ExprV) -> Result<json::JsonV, FilterExpressionErrorKind>
    decreases expression, 0int,
{
    match expression {
        model::ExprV::And(branches) => junction_document("and"@, encoded_all(branches)),
        model::ExprV::Or(branches) => junction_document("or"@, encoded_all(branches)),
        model::ExprV::Not(inner) => match encoded(*inner) {
            Err(reason) => Err(reason),
            Ok(document) => Ok(
                json::JsonV::Object(
                    seq![named("op"@, json::JsonV::String("not"@)), named("expr"@, document)],
                ),
            ),
        },
        model::ExprV::Predicate(predicate) => match predicate.data {
            model::DataV::Relation(quantifier, inner) => match encoded(*inner) {
                Err(reason) => Err(reason),
                Ok(document) => Ok(
                    json::JsonV::Object(
                        seq![
                            named("op"@, json::JsonV::String("relation"@)),
                            named("field"@, json::JsonV::String(predicate.field)),
                            named("quantifier"@, json::JsonV::String(quantifier.spelling())),
                            named("expr"@, document),
                        ],
                    ),
                ),
            },
            data => match data.scalar() {
                None => misshapen(),
                Some(scalar) => match scalar_value(scalar) {
                    Err(reason) => Err(reason),
                    Ok(value) => Ok(
                        json::JsonV::Object(
                            seq![
                                named("op"@, json::JsonV::String(data.operator_spelling())),
                                named("field"@, json::JsonV::String(predicate.field)),
                                named("value"@, value),
                            ],
                        ),
                    ),
                },
            },
        },
        model::ExprV::Invalid(reason) => Err(reason),
    }
}

/// The envelope of an expression over a target.
pub open spec fn enveloped<T: Filterable>(expression: model::ExprV) -> Result<
    json::JsonV,
    FilterExpressionErrorKind,
> {
    if !model::wire_name(T::target_name()) || !model::wire_targets(
        expression,
        Some(T::target_name()),
    ) {
        Err(FilterExpressionErrorKind::InvalidTarget)
    } else if !model::wire_fields(expression) {
        Err(FilterExpressionErrorKind::UnknownField)
    } else {
        let (reason, settled) = model::validated::<T>(expression);
        match reason {
            Some(reason) => Err(reason),
            None => if !model::resolved(settled) {
                misshapen()
            } else {
                match encoded(settled) {
                    Err(reason) => Err(reason),
                    Ok(document) => Ok(
                        json::JsonV::Object(
                            seq![
                                named("version"@, json::JsonV::Number(Number::Unsigned(1))),
                                named("target"@, json::JsonV::String(T::target_name())),
                                named("expr"@, document),
                            ],
                        ),
                    ),
                }
            },
        }
    }
}

/// Whether the compiled pattern of a text test is that of its operand, and no
/// equality stands beside an empty set.
pub open spec fn faithful(data: model::DataV) -> bool {
    &&& data.scalar() matches Some(model::ScalarV::Text(test)) ==> test.operator.takes_regex()
        ==> {
        &&& test.values.len() == 1
        &&& test.regex == Some((test.values[0], test.operator is RegexIgnoreCase))
        &&& outside::pattern_compiles(test.values[0], test.operator is RegexIgnoreCase)
    }
    &&& data matches model::DataV::WireEmpty { operator, .. } ==> !(operator is Eq)
}

/// Whether every junction of an expression joins at least two branches, none
/// of them a junction of the same kind, and every test is faithful to its
/// operands.
pub open spec fn well_formed(expression: model::ExprV) -> bool
    decreases expression,
{
    match expression {
        model::ExprV::Predicate(predicate) => faithful(predicate.data) && (
        predicate.data matches model::DataV::Relation(_, inner) ==> well_formed(*inner)),
        model::ExprV::And(branches) => branches.len() >= 2 && all_well_formed(branches)
            && forall|i: int| 0 <= i < branches.len() ==> !(#[trigger] branches[i] is And),
        model::ExprV::Or(branches) => branches.len() >= 2 && all_well_formed(branches)
            && forall|i: int| 0 <= i < branches.len() ==> !(#[trigger] branches[i] is Or),
        model::ExprV::Not(inner) => well_formed(*inner),
        model::ExprV::Invalid(_) => true,
    }
}

/// Whether every expression of a list is well formed.
pub open spec fn all_well_formed(expressions: Seq<model::ExprV>) -> bool
    decreases expressions,
{
    forall|i: int| 0 <= i < expressions.len() ==> well_formed(#[trigger] expressions[i])
}

/// The unsettled test that a settled scalar test is read back as, where its
/// operator and literal can travel.
pub open spec fn carried(data: model::DataV) -> Option<model::DataV> {
    match (data.scalar(), TextOperator::spelled(data.operator_spelling())) {
        (Some(scalar), Some(operator)) => match scalar_value(scalar) {
            Ok(document) => {
                let value = Some(wire_value(document));
                if operator.orders() || scalar_shape(operator, value) {
                    wire_data(operator, value)
                } else {
                    None
                }
            },
            Err(_) => None,
        },
        _ => None,
    }
}

/// Whether the junctions of an expression are well formed and every one of its
/// predicates can travel.
pub open spec fn sound(expression: model::ExprV) -> bool
    decreases expression,
{
    match expression {
        model::ExprV::Predicate(predicate) => model::wire_name(predicate.field)
            && match predicate.data {
            model::DataV::Relation(_, inner) => sound(*inner),
            data => carried(data) is Some,
        },
        model::ExprV::And(branches) => branches.len() >= 2 && all_sound(branches) && forall|i: int|
            0 <= i < branches.len() ==> !(#[trigger] branches[i] is And),
        model::ExprV::Or(branches) => branches.len() >= 2 && all_sound(branches) && forall|i: int|
            0 <= i < branches.len() ==> !(#[trigger] branches[i] is Or),
        model::ExprV::Not(inner) => sound(*inner),
        model::ExprV::Invalid(_) => false,
    }
}

/// Whether every expression of a list is sound.
pub open spec fn all_sound(expressions: Seq<model::ExprV>) -> bool
    decreases expressions,
{
    forall|i: int| 0 <= i < expressions.len() ==> sound(#[trigger] expressions[i])
}

/// The test that a settled test is read back as, before it is settled.
pub open spec fn wire_test(data: model::DataV) -> model::DataV
    decreases data,
{
    match data {
        model::DataV::Relation(quantifier, inner) => model::DataV::Relation(
            quantifier,
            Box::new(wire_form(*inner)),
        ),
        data => carried(data)->0,
    }
}

/// Whether a test settles on the same meaning again once it is read back.
pub open spec fn settles_again(
    data: model::DataV,
    settled: model::DataV,
    again: model::Outcome<model::DataV>,
) -> bool {
    &&& again.0 is None
    &&& match data {
        model::DataV::Relation(quantifier, _) => match (settled, again.1) {
            (
                model::DataV::Relation(settled_quantifier, inner),
                model::DataV::Relation(again_quantifier, again_inner),
            ) => settled_quantifier == quantifier && again_quantifier == quantifier && sound(*inner)
                && well_formed(*inner) && model::same_expression(*inner, *again_inner) && model::resolved(*again_inner),
            _ => false,
        },
        _ => faithful(settled) && carried(settled) is Some && !(settled is Relation) && !(again.1 is Relation)
            && again.1.is_resolved() && again.1.scalar() is Some && model::same_scalar(
            settled.scalar(),
            again.1.scalar(),
        ),
    }
}

/// The expression that a sound expression is read back as, before its
/// literals are settled.
pub open spec fn wire_form(expression: model::ExprV) -> model::ExprV
    decreases expression,
{
    match expression {
        model::ExprV::Predicate(predicate) => model::ExprV::Predicate(
            model::PredicateV {
                target: None,
                field: predicate.field,
                data: wire_test(predicate.data),
            },
        ),
        model::ExprV::And(branches) => model::ExprV::And(wire_forms(branches)),
        model::ExprV::Or(branches) => model::ExprV::Or(wire_forms(branches)),
        model::ExprV::Not(inner) => model::ExprV::Not(Box::new(wire_form(*inner))),
        model::ExprV::Invalid(reason) => model::ExprV::Invalid(reason),
    }
}

/// The expressions that a list of sound expressions is read back as.
pub open spec fn wire_forms(expressions: Seq<model::ExprV>) -> Seq<model::ExprV>
    decreases expressions,
{
    Seq::new(
        expressions.len(),
        |i: int|
            if 0 <= i < expressions.len() {
                wire_form(expressions[i])
            } else {
                arbitrary()
            },
    )
}

/// Whether the expression of an envelope keeps the complexity limits.
pub open spec fn envelope_within_limits(document: json::JsonV) -> bool {
    match document {
        json::JsonV::Object(members) => match member_expression(members, "expr"@) {
            Some(RawExpressionV::Node(node)) => within_limits(*node),
            _ => false,
        },
        _ => false,
    }
}

} // verus!
