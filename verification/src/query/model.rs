//! The mathematical model of filter expressions.

use vstd::prelude::*;
use vstd::utf8::*;

use crate::decimal;
use crate::query::error::FilterExpressionErrorKind;
use crate::query::filterable::Filterable;
use crate::query::grammar::RelationQuantifier;
use crate::query::grammar::SetOperator;
use crate::query::grammar::TextOperator;
use crate::query::matching::WireEmptyResolved;
use crate::query::outside;
use crate::query::private::IntegerKind;
use crate::text;

verus! {

/// An operator and the values it compares against.
#[verifier::ext_equal]
pub ghost struct SetV<T> {
    pub operator: SetOperator,
    pub values: Seq<T>,
}

/// A text operator, its operands, and its compiled pattern: the pattern and
/// whether it ignores case.
#[verifier::ext_equal]
pub ghost struct TextV {
    pub operator: TextOperator,
    pub values: Seq<Seq<char>>,
    pub regex: Option<(Seq<char>, bool)>,
}

/// What the string literals of a wire predicate turned out to denote.
#[verifier::ext_equal]
pub ghost enum StringResolvedV {
    Text(TextV),
    Signed(SetV<i128>),
    Unsigned(SetV<u128>),
    Enum(SetV<Seq<char>>),
}

/// The operator and operands of a predicate.
#[allow(inconsistent_fields)]
#[verifier::ext_equal]
pub ghost enum DataV {
    Text(TextV),
    Bool(SetV<bool>),
    Signed(SetV<i128>),
    Unsigned(SetV<u128>),
    Enum(SetV<Seq<char>>),
    Relation(RelationQuantifier, Box<ExprV>),
    WireString {
        operator: TextOperator,
        values: Seq<Seq<char>>,
        resolved: Option<StringResolvedV>,
    },
    WireBool { operator: SetOperator, values: Seq<bool>, resolved: bool },
    WireEmpty { operator: SetOperator, resolved: Option<WireEmptyResolved> },
}

/// A predicate: the target it is bound to, the field it reads, and the test.
#[verifier::ext_equal]
pub ghost struct PredicateV {
    pub target: Option<Seq<char>>,
    pub field: Seq<char>,
    pub data: DataV,
}

/// A filter expression.
#[verifier::ext_equal]
pub ghost enum ExprV {
    Predicate(PredicateV),
    And(Seq<ExprV>),
    Or(Seq<ExprV>),
    Not(Box<ExprV>),
    Invalid(FilterExpressionErrorKind),
}

/// A predicate's test once its literals are known to belong to one family.
#[verifier::ext_equal]
pub ghost enum ScalarV {
    Text(TextV),
    Bool(SetV<bool>),
    Signed(SetV<i128>),
    Unsigned(SetV<u128>),
    Enum(SetV<Seq<char>>),
}

/// The result of a validation: the reason it was refused, if it was, and what
/// the validated value became.
pub type Outcome<T> = (Option<FilterExpressionErrorKind>, T);

impl DataV {
    /// The scalar test, where there is one and its family is known.
    pub open spec fn scalar(self) -> Option<ScalarV> {
        match self {
            DataV::Text(text) => Some(ScalarV::Text(text)),
            DataV::Bool(set) => Some(ScalarV::Bool(set)),
            DataV::Signed(set) => Some(ScalarV::Signed(set)),
            DataV::Unsigned(set) => Some(ScalarV::Unsigned(set)),
            DataV::Enum(set) => Some(ScalarV::Enum(set)),
            DataV::Relation(..) => None,
            DataV::WireString { resolved, .. } => match resolved {
                None => None,
                Some(StringResolvedV::Text(text)) => Some(ScalarV::Text(text)),
                Some(StringResolvedV::Signed(set)) => Some(ScalarV::Signed(set)),
                Some(StringResolvedV::Unsigned(set)) => Some(ScalarV::Unsigned(set)),
                Some(StringResolvedV::Enum(set)) => Some(ScalarV::Enum(set)),
            },
            DataV::WireBool { operator, values, resolved } => if resolved {
                Some(ScalarV::Bool(SetV { operator, values }))
            } else {
                None
            },
            DataV::WireEmpty { operator, resolved } => match resolved {
                None => None,
                Some(WireEmptyResolved::Text) => match TextOperator::of_set(operator) {
                    Some(operator) => Some(
                        ScalarV::Text(TextV { operator, values: Seq::empty(), regex: None }),
                    ),
                    None => None,
                },
                Some(WireEmptyResolved::Bool) => Some(
                    ScalarV::Bool(SetV { operator, values: Seq::empty() }),
                ),
                Some(WireEmptyResolved::Signed) => Some(
                    ScalarV::Signed(SetV { operator, values: Seq::empty() }),
                ),
                Some(WireEmptyResolved::Unsigned) => Some(
                    ScalarV::Unsigned(SetV { operator, values: Seq::empty() }),
                ),
                Some(WireEmptyResolved::Enum) => Some(
                    ScalarV::Enum(SetV { operator, values: Seq::empty() }),
                ),
            },
        }
    }

    /// Whether the family of the literals is known.
    pub open spec fn is_resolved(self) -> bool {
        match self {
            DataV::WireString { resolved, .. } => resolved is Some,
            DataV::WireBool { resolved, .. } => resolved,
            DataV::WireEmpty { resolved, .. } => resolved is Some,
            _ => true,
        }
    }

    /// The wire spelling of the operator.
    pub open spec fn operator_spelling(self) -> Seq<char> {
        match self {
            DataV::Text(text) => text.operator.spelling(),
            DataV::Bool(set) => set.operator.spelling(),
            DataV::Signed(set) => set.operator.spelling(),
            DataV::Unsigned(set) => set.operator.spelling(),
            DataV::Enum(set) => set.operator.spelling(),
            DataV::Relation(..) => "relation"@,
            DataV::WireString { operator, .. } => operator.spelling(),
            DataV::WireBool { operator, .. } => operator.spelling(),
            DataV::WireEmpty { operator, .. } => operator.spelling(),
        }
    }
}

/// The first operand, or the empty text where there is none.
pub open spec fn first_operand(values: Seq<Seq<char>>) -> Seq<char> {
    if values.len() > 0 {
        values[0]
    } else {
        Seq::empty()
    }
}

/// Whether a text passes a text test.
pub open spec fn text_passes(test: TextV, candidate: Seq<char>) -> bool {
    let value = first_operand(test.values);
    let folded = outside::case_folded(candidate);
    let folded_value = outside::case_folded(value);
    match test.operator {
        TextOperator::Eq => candidate == value,
        TextOperator::EqIgnoreCase => folded == folded_value,
        TextOperator::Contains => text::occurs_in(value, candidate),
        TextOperator::ContainsIgnoreCase => text::occurs_in(folded_value, folded),
        TextOperator::StartsWith => value.is_prefix_of(candidate),
        TextOperator::StartsWithIgnoreCase => folded_value.is_prefix_of(folded),
        TextOperator::EndsWith => value.is_suffix_of(candidate),
        TextOperator::EndsWithIgnoreCase => folded_value.is_suffix_of(folded),
        TextOperator::In => test.values.contains(candidate),
        TextOperator::NotIn => !test.values.contains(candidate),
        TextOperator::Regex | TextOperator::RegexIgnoreCase => match test.regex {
            Some((pattern, ignore_case)) => outside::pattern_found(pattern, ignore_case, candidate),
            None => false,
        },
        TextOperator::Lt | TextOperator::Lte | TextOperator::Gt | TextOperator::Gte => false,
    }
}

/// Whether a byte string passes a test: only UTF-8 passes a text test.
pub open spec fn bytes_pass(test: Option<ScalarV>, candidate: Seq<u8>) -> bool {
    match test {
        Some(ScalarV::Text(test)) => valid_utf8(candidate) && text_passes(
            test,
            decode_utf8(candidate),
        ),
        _ => false,
    }
}

/// Whether a number passes an operator and its operands. An ordering operator
/// compares against the first operand and passes nothing without one.
pub open spec fn number_passes(operator: SetOperator, values: Seq<int>, candidate: int) -> bool {
    match operator {
        SetOperator::Eq | SetOperator::In => values.contains(candidate),
        SetOperator::NotIn => !values.contains(candidate),
        SetOperator::Lt => values.len() > 0 && candidate < values[0],
        SetOperator::Lte => values.len() > 0 && candidate <= values[0],
        SetOperator::Gt => values.len() > 0 && candidate > values[0],
        SetOperator::Gte => values.len() > 0 && candidate >= values[0],
    }
}

/// A boolean as a number: `false` comes before `true`.
pub open spec fn bool_number(value: bool) -> int {
    if value {
        1
    } else {
        0
    }
}

/// Whether a boolean passes a test.
pub open spec fn bool_passes(test: Option<ScalarV>, candidate: bool) -> bool {
    match test {
        Some(ScalarV::Bool(set)) => number_passes(
            set.operator,
            set.values.map_values(|value: bool| bool_number(value)),
            bool_number(candidate),
        ),
        _ => false,
    }
}

/// Whether a signed integer passes a test.
pub open spec fn signed_passes(test: Option<ScalarV>, candidate: int) -> bool {
    match test {
        Some(ScalarV::Signed(set)) => number_passes(
            set.operator,
            set.values.map_values(|value: i128| value as int),
            candidate,
        ),
        _ => false,
    }
}

/// Whether an unsigned integer passes a test.
pub open spec fn unsigned_passes(test: Option<ScalarV>, candidate: int) -> bool {
    match test {
        Some(ScalarV::Unsigned(set)) => number_passes(
            set.operator,
            set.values.map_values(|value: u128| value as int),
            candidate,
        ),
        _ => false,
    }
}

/// Whether an enum name passes a test.
pub open spec fn enum_passes(test: Option<ScalarV>, candidate: Seq<char>) -> bool {
    match test {
        Some(ScalarV::Enum(set)) => set.values.contains(candidate) != (set.operator is NotIn),
        _ => false,
    }
}

/// Whether a candidate matches an expression.
pub open spec fn accepts<T: Filterable>(expression: ExprV, candidate: &T) -> bool
    decreases expression,
{
    match expression {
        ExprV::Predicate(predicate) => candidate.passes(predicate),
        ExprV::And(expressions) => all_accept(expressions, candidate),
        ExprV::Or(expressions) => any_accepts(expressions, candidate),
        ExprV::Not(expression) => !accepts(*expression, candidate),
        ExprV::Invalid(_) => false,
    }
}

/// Whether a candidate matches every expression of a list.
pub open spec fn all_accept<T: Filterable>(expressions: Seq<ExprV>, candidate: &T) -> bool
    decreases expressions,
{
    forall|i: int| 0 <= i < expressions.len() ==> accepts(#[trigger] expressions[i], candidate)
}

/// Whether a candidate matches some expression of a list.
pub open spec fn any_accepts<T: Filterable>(expressions: Seq<ExprV>, candidate: &T) -> bool
    decreases expressions,
{
    exists|i: int| 0 <= i < expressions.len() && accepts(#[trigger] expressions[i], candidate)
}

/// Whether related values satisfy a to-many relation.
pub open spec fn many_pass<T: Filterable>(data: DataV, related: Seq<T>) -> bool {
    match data {
        DataV::Relation(RelationQuantifier::Any, expression) => exists|i: int|
            0 <= i < related.len() && accepts(*expression, &#[trigger] related[i]),
        DataV::Relation(RelationQuantifier::All, expression) => forall|i: int|
            0 <= i < related.len() ==> accepts(*expression, &#[trigger] related[i]),
        DataV::Relation(RelationQuantifier::NoneOf, expression) => forall|i: int|
            0 <= i < related.len() ==> !accepts(*expression, &#[trigger] related[i]),
        _ => false,
    }
}

/// Whether a related value satisfies a to-one relation.
pub open spec fn one_passes<T: Filterable>(data: DataV, related: Option<T>) -> bool {
    match (data, related) {
        (DataV::Relation(RelationQuantifier::Is, expression), Some(candidate)) => accepts(
            *expression,
            &candidate,
        ),
        _ => false,
    }
}

/// Whether a text test has the right number of operands and a compiled pattern
/// exactly where its operator takes one.
pub open spec fn text_shape(test: TextV) -> Option<FilterExpressionErrorKind> {
    if test.operator.orders() {
        Some(FilterExpressionErrorKind::UnknownOperator)
    } else if test.operator.takes_regex() == (test.regex is Some) && (test.operator is In
        || test.operator is NotIn || test.values.len() == 1) {
        None
    } else {
        Some(FilterExpressionErrorKind::InvalidStructure)
    }
}

/// Whether an operator and its number of operands agree.
pub open spec fn set_shape(operator: SetOperator, count: nat) -> bool {
    operator.takes_set() || count == 1
}

/// What a shape check without ordering operators answers.
pub open spec fn unordered_shape(operator: SetOperator, count: nat) -> Option<
    FilterExpressionErrorKind,
> {
    if operator.orders() {
        Some(FilterExpressionErrorKind::UnknownOperator)
    } else if set_shape(operator, count) {
        None
    } else {
        Some(FilterExpressionErrorKind::InvalidStructure)
    }
}

/// What checking enum literals against the variants answers.
pub open spec fn enum_shape(set: SetV<Seq<char>>, variants: Seq<Seq<char>>) -> Option<
    FilterExpressionErrorKind,
> {
    match unordered_shape(set.operator, set.values.len()) {
        Some(reason) => Some(reason),
        None => if forall|i: int|
            0 <= i < set.values.len() ==> variants.contains(#[trigger] set.values[i]) {
            None
        } else {
            Some(FilterExpressionErrorKind::InvalidLiteral)
        },
    }
}

/// Settle a wire predicate of string literals on one reading. A predicate
/// settled before has to agree.
pub open spec fn settle_string(
    operator: TextOperator,
    values: Seq<Seq<char>>,
    resolved: Option<StringResolvedV>,
    reading: StringResolvedV,
) -> Outcome<DataV> {
    match resolved {
        None => (None, DataV::WireString { operator, values, resolved: Some(reading) }),
        Some(settled) => (
            if same_reading(settled, reading) {
                None
            } else {
                Some(FilterExpressionErrorKind::InvalidStructure)
            },
            DataV::WireString { operator, values, resolved },
        ),
    }
}

/// Whether two readings of string literals are one reading. The compiled
/// pattern is derived from the operands and takes no part.
pub open spec fn same_reading(left: StringResolvedV, right: StringResolvedV) -> bool {
    match (left, right) {
        (StringResolvedV::Text(left), StringResolvedV::Text(right)) => left.operator
            == right.operator && left.values == right.values,
        _ => left == right,
    }
}

/// Settle an empty set of literals on one family.
pub open spec fn settle_empty(
    operator: SetOperator,
    resolved: Option<WireEmptyResolved>,
    family: WireEmptyResolved,
) -> Outcome<DataV> {
    if operator.orders() {
        (
            Some(FilterExpressionErrorKind::UnknownOperator),
            DataV::WireEmpty { operator, resolved },
        )
    } else {
        match resolved {
            None => (None, DataV::WireEmpty { operator, resolved: Some(family) }),
            Some(settled) => (
                if settled == family {
                    None
                } else {
                    Some(FilterExpressionErrorKind::InvalidStructure)
                },
                DataV::WireEmpty { operator, resolved },
            ),
        }
    }
}

/// Validation against a text field.
pub open spec fn validated_text(data: DataV) -> Outcome<DataV> {
    match data {
        DataV::Text(test) => (text_shape(test), data),
        DataV::WireString { operator, values, resolved } => {
            let ignore_case = operator is RegexIgnoreCase;
            if operator.takes_regex() && values.len() == 0 {
                (Some(FilterExpressionErrorKind::InvalidStructure), data)
            } else if operator.takes_regex() && !outside::pattern_compiles(
                values[0],
                ignore_case,
            ) {
                (Some(FilterExpressionErrorKind::InvalidRegex), data)
            } else {
                let regex = if operator.takes_regex() {
                    Some((values[0], ignore_case))
                } else {
                    None
                };
                let test = TextV { operator, values, regex };
                match text_shape(test) {
                    Some(reason) => (Some(reason), data),
                    None => settle_string(operator, values, resolved, StringResolvedV::Text(test)),
                }
            }
        },
        DataV::WireBool { .. } => (Some(FilterExpressionErrorKind::InvalidLiteral), data),
        DataV::WireEmpty { operator, resolved } => settle_empty(
            operator,
            resolved,
            WireEmptyResolved::Text,
        ),
        _ => (Some(FilterExpressionErrorKind::UnknownOperator), data),
    }
}

/// Validation against a boolean field.
pub open spec fn validated_bool(data: DataV) -> Outcome<DataV> {
    match data {
        DataV::Bool(set) => (unordered_shape(set.operator, set.values.len()), data),
        DataV::WireBool { operator, values, resolved } => match unordered_shape(
            operator,
            values.len(),
        ) {
            Some(reason) => (Some(reason), data),
            None => (None, DataV::WireBool { operator, values, resolved: true }),
        },
        DataV::WireString { operator, .. } => (
            Some(
                if operator.as_set() is Some {
                    FilterExpressionErrorKind::InvalidLiteral
                } else {
                    FilterExpressionErrorKind::UnknownOperator
                },
            ),
            data,
        ),
        DataV::WireEmpty { operator, resolved } => settle_empty(
            operator,
            resolved,
            WireEmptyResolved::Bool,
        ),
        _ => (Some(FilterExpressionErrorKind::UnknownOperator), data),
    }
}

/// Whether every text is canonical notation of an integer in the range.
pub open spec fn literals_in_range(texts: Seq<Seq<char>>, minimum: int, maximum: int) -> bool {
    forall|i: int|
        0 <= i < texts.len() ==> literal_in_range(#[trigger] texts[i], minimum, maximum)
}

/// Whether a text is canonical notation of an integer in the range.
pub open spec fn literal_in_range(text: Seq<char>, minimum: int, maximum: int) -> bool {
    exists|number: int|
        minimum <= number <= maximum && text == #[trigger] decimal::signed_decimal(number)
}

/// The integer that a canonical notation denotes.
pub open spec fn literal_value(text: Seq<char>) -> int {
    choose|number: int| text == #[trigger] decimal::signed_decimal(number)
}

/// Validation against an integer field of one width.
pub open spec fn validated_integer(data: DataV, kind: IntegerKind) -> Outcome<DataV> {
    let (minimum, maximum) = kind.range();
    let literal = Some(FilterExpressionErrorKind::InvalidLiteral);
    match data {
        DataV::Signed(set) => (
            if !set_shape(set.operator, set.values.len()) {
                Some(FilterExpressionErrorKind::InvalidStructure)
            } else if kind.is_signed() && forall|i: int|
                0 <= i < set.values.len() ==> minimum <= #[trigger] set.values[i] <= maximum {
                None
            } else {
                literal
            },
            data,
        ),
        DataV::Unsigned(set) => (
            if !set_shape(set.operator, set.values.len()) {
                Some(FilterExpressionErrorKind::InvalidStructure)
            } else if !kind.is_signed() && forall|i: int|
                0 <= i < set.values.len() ==> #[trigger] set.values[i] <= maximum {
                None
            } else {
                literal
            },
            data,
        ),
        DataV::WireString { operator, values, resolved } => match operator.as_set() {
            None => (Some(FilterExpressionErrorKind::UnknownOperator), data),
            Some(set) => if !set_shape(set, values.len()) {
                (Some(FilterExpressionErrorKind::InvalidStructure), data)
            } else if !literals_in_range(values, minimum, maximum) {
                (literal, data)
            } else if kind.is_signed() {
                settle_string(
                    operator,
                    values,
                    resolved,
                    StringResolvedV::Signed(
                        SetV {
                            operator: set,
                            values: values.map_values(
                                |text: Seq<char>| literal_value(text) as i128,
                            ),
                        },
                    ),
                )
            } else {
                settle_string(
                    operator,
                    values,
                    resolved,
                    StringResolvedV::Unsigned(
                        SetV {
                            operator: set,
                            values: values.map_values(
                                |text: Seq<char>| literal_value(text) as u128,
                            ),
                        },
                    ),
                )
            },
        },
        DataV::WireBool { .. } => (literal, data),
        DataV::WireEmpty { operator, resolved } => settle_empty(
            operator,
            resolved,
            if kind.is_signed() {
                WireEmptyResolved::Signed
            } else {
                WireEmptyResolved::Unsigned
            },
        ),
        _ => (Some(FilterExpressionErrorKind::UnknownOperator), data),
    }
}

/// Validation against an enum field with the given variants.
pub open spec fn validated_enum(data: DataV, variants: Seq<Seq<char>>) -> Outcome<DataV> {
    match data {
        DataV::Enum(set) => (enum_shape(set, variants), data),
        DataV::WireString { operator, values, resolved } => match operator.as_set() {
            None => (Some(FilterExpressionErrorKind::UnknownOperator), data),
            Some(set) => {
                let reading = SetV { operator: set, values };
                match enum_shape(reading, variants) {
                    Some(reason) => (Some(reason), data),
                    None => settle_string(
                        operator,
                        values,
                        resolved,
                        StringResolvedV::Enum(reading),
                    ),
                }
            },
        },
        DataV::WireBool { .. } => (Some(FilterExpressionErrorKind::InvalidLiteral), data),
        DataV::WireEmpty { operator, resolved } => settle_empty(
            operator,
            resolved,
            WireEmptyResolved::Enum,
        ),
        _ => (Some(FilterExpressionErrorKind::UnknownOperator), data),
    }
}

/// Validation against a to-many relation.
pub open spec fn validated_many<T: Filterable>(data: DataV) -> Outcome<DataV> {
    match data {
        DataV::Relation(RelationQuantifier::Is, _) => (
            Some(FilterExpressionErrorKind::UnknownQuantifier),
            data,
        ),
        DataV::Relation(quantifier, expression) => {
            let (reason, expression) = validated::<T>(*expression);
            (reason, DataV::Relation(quantifier, Box::new(expression)))
        },
        _ => (Some(FilterExpressionErrorKind::UnknownOperator), data),
    }
}

/// Validation against a to-one relation.
pub open spec fn validated_one<T: Filterable>(data: DataV) -> Outcome<DataV> {
    match data {
        DataV::Relation(RelationQuantifier::Is, expression) => {
            let (reason, expression) = validated::<T>(*expression);
            (reason, DataV::Relation(RelationQuantifier::Is, Box::new(expression)))
        },
        DataV::Relation(..) => (Some(FilterExpressionErrorKind::UnknownQuantifier), data),
        _ => (Some(FilterExpressionErrorKind::UnknownOperator), data),
    }
}

/// Whether a name can travel on the wire: a lower-case letter, and then
/// lower-case letters, digits and underscores.
pub open spec fn wire_name(name: Seq<char>) -> bool {
    &&& name.len() > 0
    &&& 'a' <= name[0] <= 'z'
    &&& forall|i: int| 0 < i < name.len() ==> wire_character(#[trigger] name[i])
}

/// Whether a character can follow the first one of a wire name.
pub open spec fn wire_character(character: char) -> bool {
    'a' <= character <= 'z' || '0' <= character <= '9' || character == '_'
}

/// The first reason in a list of answers.
pub open spec fn first_reason(reasons: Seq<Option<FilterExpressionErrorKind>>) -> Option<
    FilterExpressionErrorKind,
>
    decreases reasons.len(),
{
    if reasons.len() == 0 {
        None
    } else if reasons[0] is Some {
        reasons[0]
    } else {
        first_reason(reasons.skip(1))
    }
}

/// Validation of a predicate against a target.
pub open spec fn validated_predicate<T: Filterable>(predicate: PredicateV) -> Outcome<PredicateV> {
    if predicate.target is Some && predicate.target->0 != T::target_name() {
        (Some(FilterExpressionErrorKind::InvalidTarget), predicate)
    } else {
        let bound = PredicateV { target: Some(T::target_name()), ..predicate };
        if !wire_name(predicate.field) {
            (Some(FilterExpressionErrorKind::UnknownField), bound)
        } else {
            let (reason, data) = T::checked(bound.field, bound.data);
            (reason, PredicateV { data, ..bound })
        }
    }
}

/// Validation of an expression against a target. Every branch is visited, also
/// past a refused one, and the first reason stands.
pub open spec fn validated<T: Filterable>(expression: ExprV) -> Outcome<ExprV>
    decreases expression,
{
    match expression {
        ExprV::Predicate(predicate) => {
            let (reason, predicate) = validated_predicate::<T>(predicate);
            (reason, ExprV::Predicate(predicate))
        },
        ExprV::And(expressions) => {
            let outcomes = validated_branches::<T>(expressions);
            (first_reason(reasons(outcomes)), ExprV::And(values(outcomes)))
        },
        ExprV::Or(expressions) => {
            let outcomes = validated_branches::<T>(expressions);
            (first_reason(reasons(outcomes)), ExprV::Or(values(outcomes)))
        },
        ExprV::Not(inner) => {
            let (reason, inner) = validated::<T>(*inner);
            (reason, ExprV::Not(Box::new(inner)))
        },
        ExprV::Invalid(reason) => (Some(reason), expression),
    }
}

/// Validation of every branch of a junction.
pub open spec fn validated_branches<T: Filterable>(expressions: Seq<ExprV>) -> Seq<Outcome<ExprV>>
    decreases expressions,
{
    Seq::new(
        expressions.len(),
        |i: int|
            if 0 <= i < expressions.len() {
                validated::<T>(expressions[i])
            } else {
                arbitrary()
            },
    )
}

/// The reasons of a list of outcomes.
pub open spec fn reasons<T>(outcomes: Seq<Outcome<T>>) -> Seq<
    Option<FilterExpressionErrorKind>,
> {
    Seq::new(outcomes.len(), |i: int| outcomes[i].0)
}

/// The values of a list of outcomes.
pub open spec fn values<T>(outcomes: Seq<Outcome<T>>) -> Seq<T> {
    Seq::new(outcomes.len(), |i: int| outcomes[i].1)
}

/// Whether two scalar tests are one test. The compiled pattern is derived from
/// the operands and takes no part.
pub open spec fn same_scalar(left: Option<ScalarV>, right: Option<ScalarV>) -> bool {
    match (left, right) {
        (Some(ScalarV::Text(left)), Some(ScalarV::Text(right))) => left.operator == right.operator
            && left.values == right.values,
        _ => left == right,
    }
}

/// Whether two tests are one test.
pub open spec fn same_data(left: DataV, right: DataV) -> bool
    decreases left, 0int,
{
    match (left, right) {
        (
            DataV::Relation(left_quantifier, left_expression),
            DataV::Relation(right_quantifier, right_expression),
        ) => left_quantifier == right_quantifier && same_expression(
            *left_expression,
            *right_expression,
        ),
        _ => same_scalar(left.scalar(), right.scalar()),
    }
}

/// Whether two predicates name one field of one target and hold one test.
pub open spec fn same_predicate(left: PredicateV, right: PredicateV) -> bool
    decreases left, 0int,
{
    &&& named_target(left.target) == named_target(right.target)
    &&& left.field == right.field
    &&& same_data(left.data, right.data)
}

/// The name of a target, empty where no target is bound.
pub open spec fn named_target(target: Option<Seq<char>>) -> Seq<char> {
    match target {
        Some(name) => name,
        None => Seq::empty(),
    }
}

/// Whether two expressions are one expression, branch by branch.
pub open spec fn same_expression(left: ExprV, right: ExprV) -> bool
    decreases left, 0int,
{
    match (left, right) {
        (ExprV::Predicate(left), ExprV::Predicate(right)) => same_predicate(left, right),
        (ExprV::And(left), ExprV::And(right)) => same_branches(left, right),
        (ExprV::Or(left), ExprV::Or(right)) => same_branches(left, right),
        (ExprV::Not(left), ExprV::Not(right)) => same_expression(*left, *right),
        (ExprV::Invalid(left), ExprV::Invalid(right)) => left == right,
        _ => false,
    }
}

/// Whether two lists of expressions agree, branch by branch.
pub open spec fn same_branches(left: Seq<ExprV>, right: Seq<ExprV>) -> bool
    decreases left, 0int,
{
    left.len() == right.len() && forall|i: int|
        0 <= i < left.len() ==> same_expression(#[trigger] left[i], right[i])
}

/// Whether the family of every literal is known.
pub open spec fn resolved(expression: ExprV) -> bool
    decreases expression,
{
    match expression {
        ExprV::Predicate(predicate) => predicate.data.is_resolved() && (
        predicate.data matches DataV::Relation(_, inner) ==> resolved(*inner)),
        ExprV::And(expressions) => all_resolved(expressions),
        ExprV::Or(expressions) => all_resolved(expressions),
        ExprV::Not(inner) => resolved(*inner),
        ExprV::Invalid(_) => false,
    }
}

/// What checking the targets of an expression answers: every target is a wire
/// name, and outside relations it is the expected one.
pub open spec fn wire_targets(expression: ExprV, expected: Option<Seq<char>>) -> bool
    decreases expression,
{
    match expression {
        ExprV::Predicate(predicate) => {
            &&& wire_name(named_target(predicate.target))
            &&& expected is Some ==> named_target(predicate.target) == expected->0
            &&& predicate.data matches DataV::Relation(_, inner) ==> wire_targets(*inner, None)
        },
        ExprV::And(expressions) => all_wire_targets(expressions, expected),
        ExprV::Or(expressions) => all_wire_targets(expressions, expected),
        ExprV::Not(inner) => wire_targets(*inner, expected),
        ExprV::Invalid(_) => true,
    }
}

/// What checking the targets of every expression of a list answers.
pub open spec fn all_wire_targets(expressions: Seq<ExprV>, expected: Option<Seq<char>>) -> bool
    decreases expressions,
{
    forall|i: int|
        0 <= i < expressions.len() ==> wire_targets(#[trigger] expressions[i], expected)
}

/// Whether every field of every expression of a list is a wire name.
pub open spec fn all_wire_fields(expressions: Seq<ExprV>) -> bool
    decreases expressions,
{
    forall|i: int| 0 <= i < expressions.len() ==> wire_fields(#[trigger] expressions[i])
}

/// Whether the family of every literal of every expression of a list is known.
pub open spec fn all_resolved(expressions: Seq<ExprV>) -> bool
    decreases expressions,
{
    forall|i: int| 0 <= i < expressions.len() ==> resolved(#[trigger] expressions[i])
}

/// Whether every field of an expression is a wire name.
pub open spec fn wire_fields(expression: ExprV) -> bool
    decreases expression,
{
    match expression {
        ExprV::Predicate(predicate) => {
            &&& wire_name(predicate.field)
            &&& predicate.data matches DataV::Relation(_, inner) ==> wire_fields(*inner)
        },
        ExprV::And(expressions) => all_wire_fields(expressions),
        ExprV::Or(expressions) => all_wire_fields(expressions),
        ExprV::Not(inner) => wire_fields(*inner),
        ExprV::Invalid(_) => true,
    }
}

} // verus!
