//! The predicate that generated dispatch receives, and the constructors that
//! generated code calls.

use vstd::prelude::*;

use crate::decimal;
use crate::query::error;
use crate::query::error::FilterExpressionError;
use crate::query::error::FilterExpressionErrorKind;
use crate::query::fields::BoolField;
use crate::query::fields::EnumField;
use crate::query::fields::IntegerField;
use crate::query::fields::ManyRelation;
use crate::query::fields::OneRelation;
use crate::query::fields::TextField;
use crate::query::filterable::FilterEnum;
use crate::query::filterable::Filterable;
use crate::query::grammar::RelationQuantifier;
use crate::query::grammar::SetOperator;
use crate::query::grammar::TextOperator;
use crate::query::matching;
use crate::query::matching::CompiledRegex;
use crate::query::matching::ExprData;
use crate::query::matching::FieldId;
use crate::query::matching::PredicateData;
use crate::query::matching::PredicateIdentity;
use crate::query::matching::RelationPredicate;
use crate::query::matching::ResolvedScalar;
use crate::query::matching::SetPredicate;
use crate::query::matching::TextPredicate;
use crate::query::matching::WireEmptyPredicate;
use crate::query::matching::WireEmptyResolved;
use crate::query::matching::WireStringPredicate;
use crate::query::matching::WireStringResolved;
use crate::query::model;
use crate::query::outside;
use crate::text;

verus! {

/// The fixed-width integer types understood by generated schema checks.
#[derive(Clone, Copy, Debug, PartialEq, Eq, Hash, Structural)]
pub enum IntegerKind {
    /// `i8`.
    I8,
    /// `i16`.
    I16,
    /// `i32`.
    I32,
    /// `i64`.
    I64,
    /// `i128`.
    I128,
    /// `u8`.
    U8,
    /// `u16`.
    U16,
    /// `u32`.
    U32,
    /// `u64`.
    U64,
    /// `u128`.
    U128,
}

impl IntegerKind {
    /// Whether the type has negative values.
    pub open spec fn is_signed(self) -> bool {
        self is I8 || self is I16 || self is I32 || self is I64 || self is I128
    }

    /// The least and the greatest value of the type.
    pub open spec fn range(self) -> (int, int) {
        match self {
            IntegerKind::I8 => (i8::MIN as int, i8::MAX as int),
            IntegerKind::I16 => (i16::MIN as int, i16::MAX as int),
            IntegerKind::I32 => (i32::MIN as int, i32::MAX as int),
            IntegerKind::I64 => (i64::MIN as int, i64::MAX as int),
            IntegerKind::I128 => (i128::MIN as int, i128::MAX as int),
            IntegerKind::U8 => (0, u8::MAX as int),
            IntegerKind::U16 => (0, u16::MAX as int),
            IntegerKind::U32 => (0, u32::MAX as int),
            IntegerKind::U64 => (0, u64::MAX as int),
            IntegerKind::U128 => (0, u128::MAX as int),
        }
    }

    /// The least and the greatest value of a signed type.
    pub fn signed_bounds(self) -> (bounds: Option<(i128, i128)>)
        ensures
            bounds is Some <==> self.is_signed(),
            bounds matches Some((minimum, maximum)) ==> (minimum as int, maximum as int)
                == self.range(),
    {
        match self {
            IntegerKind::I8 => Some((i8::MIN as i128, i8::MAX as i128)),
            IntegerKind::I16 => Some((i16::MIN as i128, i16::MAX as i128)),
            IntegerKind::I32 => Some((i32::MIN as i128, i32::MAX as i128)),
            IntegerKind::I64 => Some((i64::MIN as i128, i64::MAX as i128)),
            IntegerKind::I128 => Some((i128::MIN, i128::MAX)),
            IntegerKind::U8
            | IntegerKind::U16
            | IntegerKind::U32
            | IntegerKind::U64
            | IntegerKind::U128 => None,
        }
    }

    /// The greatest value of an unsigned type.
    pub fn unsigned_max(self) -> (maximum: Option<u128>)
        ensures
            maximum is Some <==> !self.is_signed(),
            maximum is Some ==> (0int, maximum->0 as int) == self.range(),
    {
        match self {
            IntegerKind::U8 => Some(u8::MAX as u128),
            IntegerKind::U16 => Some(u16::MAX as u128),
            IntegerKind::U32 => Some(u32::MAX as u128),
            IntegerKind::U64 => Some(u64::MAX as u128),
            IntegerKind::U128 => Some(u128::MAX),
            IntegerKind::I8
            | IntegerKind::I16
            | IntegerKind::I32
            | IntegerKind::I64
            | IntegerKind::I128 => None,
        }
    }
}

/// One opaque predicate passed to generated candidate dispatch.
///
/// Callers read the stable field name and call the typed matching or
/// validation helpers.
pub struct Predicate {
    pub(crate) id: PredicateIdentity,
    pub(crate) data: PredicateData,
}

impl Predicate {
    /// The predicate in the model.
    pub closed spec fn view(&self) -> model::PredicateV
        decreases self,
    {
        model::PredicateV {
            target: self.id.bound_target(),
            field: self.id.field_name(),
            data: self.data.view(),
        }
    }

    /// Bind the predicate to a target. A target named before has to agree.
    pub fn bind_target_internal(&mut self, target: &'static str) -> (result: Result<
        (),
        FilterExpressionError,
    >)
        ensures
            final(self)@.field == old(self)@.field,
            final(self)@.data == old(self)@.data,
            match old(self)@.target {
                Some(name) => final(self)@.target == Some(name) && if name == target@ {
                    result is Ok
                } else {
                    result is Err && result->Err_0@ == FilterExpressionErrorKind::InvalidTarget
                },
                None => result is Ok && final(self)@.target == Some(target@),
            },
    {
        self.id.bind_target(target)
    }

    /// The stable field name used by generated dispatch.
    pub fn field(&self) -> (field: &str)
        ensures
            field@ == self@.field,
    {
        self.id.field()
    }

    /// Build a predicate on a field that generated code names.
    pub fn new(id: FieldId, data: PredicateData) -> (predicate: Predicate)
        ensures
            predicate@ == (model::PredicateV {
                target: Some(id.target@),
                field: id.field@,
                data: data@,
            }),
    {
        Predicate { id: PredicateIdentity::Static(id), data }
    }

    /// Build a predicate read from the wire. No target is bound yet.
    pub fn from_wire(field: String, data: PredicateData) -> (predicate: Predicate)
        ensures
            predicate@ == (model::PredicateV { target: None, field: field@, data: data@ }),
    {
        Predicate { id: PredicateIdentity::Wire { target: None, field }, data }
    }

    /// The target's name, empty while no target accepted the predicate.
    pub fn target(&self) -> (target: &str)
        ensures
            target@ == model::named_target(self@.target),
    {
        self.id.target()
    }

    /// The wire spelling of the operator.
    pub fn operator_label(&self) -> (label: &'static str)
        ensures
            label@ == self@.data.operator_spelling(),
    {
        self.data.operator_label()
    }

    /// The relation, where the predicate is one.
    pub fn relation_internal(&self) -> (relation: Option<&RelationPredicate>)
        ensures
            match relation {
                Some(relation) => self@.data == model::DataV::Relation(
                    relation.quantifier,
                    Box::new(relation.expression@),
                ) && decreases_to!(self => relation.expression),
                None => !(self@.data is Relation),
            },
    {
        match &self.data {
            PredicateData::Relation(relation) => Some(relation),
            _ => None,
        }
    }

    /// The scalar test, where there is one and its family is known.
    pub fn scalar_internal(&self) -> (scalar: Option<ResolvedScalar<'_>>)
        ensures
            matching::scalar_view(scalar) == self@.data.scalar(),
    {
        self.data.scalar()
    }

    /// Whether the family of the literals is known.
    pub fn is_resolved_internal(&self) -> (resolved: bool)
        ensures
            resolved == self@.data.is_resolved(),
    {
        self.data.is_resolved()
    }

    /// Copy a predicate.
    pub fn clone_internal(&self) -> (copy: Predicate)
        ensures
            copy@ == self@,
        decreases self,
    {
        Predicate { id: self.id.clone_internal(), data: self.data.copy() }
    }

    /// Report whether two predicates name one field of one target and hold one
    /// test.
    pub fn eq_internal(&self, other: &Predicate) -> (same: bool)
        ensures
            same == model::same_predicate(self@, other@),
        decreases self,
    {
        self.id.same(&other.id) && self.data.same(&other.data)
    }
}

impl Predicate {
    /// Match a strict UTF-8 candidate with this text predicate.
    ///
    /// Invalid UTF-8 is refused before every operator, including exclusion
    /// from an empty set.
    pub fn matches_text(&self, candidate: &[u8]) -> (passes: bool)
        ensures
            passes == model::bytes_pass(self@.data.scalar(), candidate@),
    {
        let text = match outside::read_utf8(candidate) {
            Some(text) => text,
            None => return false,
        };
        proof {
            vstd::utf8::encode_utf8_decode_utf8(text@);
        }
        match self.data.scalar() {
            Some(ResolvedScalar::Text(operator, values, regex)) => text_matches(
                operator,
                values,
                regex,
                text,
            ),
            _ => false,
        }
    }

    /// Match a boolean candidate with this boolean predicate.
    pub fn matches_bool(&self, candidate: bool) -> (passes: bool)
        ensures
            passes == model::bool_passes(self@.data.scalar(), candidate),
    {
        match self.data.scalar() {
            Some(ResolvedScalar::Bool(operator, values)) => {
                assert(matching::numbers(values@) =~= values@.map_values(
                    |value: bool| model::bool_number(value),
                ));
                matching::set_matches(operator, values, candidate)
            },
            _ => false,
        }
    }

    /// Match a signed candidate widened without loss to `i128`.
    pub fn matches_signed(&self, candidate: i128) -> (passes: bool)
        ensures
            passes == model::signed_passes(self@.data.scalar(), candidate as int),
    {
        match self.data.scalar() {
            Some(ResolvedScalar::Signed(operator, values)) => {
                assert(matching::numbers(values@) =~= values@.map_values(
                    |value: i128| value as int,
                ));
                matching::set_matches(operator, values, candidate)
            },
            _ => false,
        }
    }

    /// Match an unsigned candidate widened without loss to `u128`.
    pub fn matches_unsigned(&self, candidate: u128) -> (passes: bool)
        ensures
            passes == model::unsigned_passes(self@.data.scalar(), candidate as int),
    {
        match self.data.scalar() {
            Some(ResolvedScalar::Unsigned(operator, values)) => {
                assert(matching::numbers(values@) =~= values@.map_values(
                    |value: u128| value as int,
                ));
                matching::set_matches(operator, values, candidate)
            },
            _ => false,
        }
    }

    /// Match a custom enum candidate's stable filter string.
    pub fn matches_enum(&self, candidate: &str) -> (passes: bool)
        ensures
            passes == model::enum_passes(self@.data.scalar(), candidate@),
    {
        match self.data.scalar() {
            Some(ResolvedScalar::Enum(operator, values)) => matching::listed_text(
                values,
                candidate,
            ) != (operator == SetOperator::NotIn),
            _ => false,
        }
    }

    /// Match this relation predicate against already-loaded related values.
    ///
    /// Other predicate families and the to-one `is` quantifier match nothing.
    pub fn matches_many<U: Filterable>(&self, values: &[U]) -> (passes: bool)
        ensures
            passes == model::many_pass(self@.data, values@),
    {
        let relation = match &self.data {
            PredicateData::Relation(relation) => relation,
            _ => return false,
        };
        match relation.quantifier {
            RelationQuantifier::Any => some_related(&relation.expression, values, true),
            RelationQuantifier::All => !some_related(&relation.expression, values, false),
            RelationQuantifier::NoneOf => !some_related(&relation.expression, values, true),
            RelationQuantifier::Is => false,
        }
    }

    /// Match this relation predicate against one already-loaded value.
    ///
    /// An absent value, another quantifier, or another predicate family
    /// matches nothing.
    pub fn matches_one<U: Filterable>(&self, value: Option<&U>) -> (passes: bool)
        ensures
            passes == model::one_passes(
                self@.data,
                match value {
                    Some(value) => Some(*value),
                    None => None,
                },
            ),
    {
        match (&self.data, value) {
            (PredicateData::Relation(relation), Some(candidate)) => {
                if relation.quantifier == RelationQuantifier::Is {
                    matching::evaluate(&relation.expression, candidate)
                } else {
                    false
                }
            },
            _ => false,
        }
    }
}

/// Report whether some related value answers an expression with `answer`.
fn some_related<U: Filterable>(expression: &ExprData, values: &[U], answer: bool) -> (found: bool)
    ensures
        found == exists|i: int|
            0 <= i < values@.len() && model::accepts(expression@, &#[trigger] values@[i])
                == answer,
{
    let mut index: usize = 0;
    while index < values.len()
        invariant
            index <= values@.len(),
            forall|i: int|
                0 <= i < index ==> model::accepts(expression@, &#[trigger] values@[i]) != answer,
        decreases values@.len() - index,
    {
        if matching::evaluate(expression, &values[index]) == answer {
            assert(model::accepts(expression@, &values@[index as int]) == answer);
            return true;
        }
        index += 1;
    }
    false
}

/// Evaluate one text operator against its operands.
pub fn text_matches(
    operator: TextOperator,
    values: &[String],
    compiled_regex: Option<&CompiledRegex>,
    candidate: &str,
) -> (passes: bool)
    ensures
        passes == model::text_passes(
            model::TextV {
                operator,
                values: matching::texts(values@),
                regex: match compiled_regex {
                    Some(regex) => Some(regex@),
                    None => None,
                },
            },
            candidate@,
        ),
        values@.len() == 1 ==> {
            let value = values@[0]@;
            &&& operator is Eq ==> passes == (candidate@ == value)
            &&& operator is StartsWith ==> passes == (value.len() <= candidate@.len()
                && candidate@.subrange(0, value.len() as int) == value)
            &&& operator is EndsWith ==> passes == (value.len() <= candidate@.len()
                && candidate@.subrange(candidate@.len() - value.len(), candidate@.len() as int)
                == value)
            &&& operator is Contains ==> passes == exists|at: int|
                0 <= at <= candidate@.len() - value.len() && #[trigger] candidate@.subrange(
                    at,
                    at + value.len(),
                ) == value
        },
        operator is In ==> passes == exists|i: int|
            0 <= i < values@.len() && (#[trigger] values@[i])@ == candidate@,
        operator is NotIn ==> passes == forall|i: int|
            0 <= i < values@.len() ==> (#[trigger] values@[i])@ != candidate@,
{
    proof {
        let texts = matching::texts(values@);
        assert(forall|i: int| 0 <= i < values@.len() ==> texts[i] == (#[trigger] values@[i])@);
        if texts.contains(candidate@) {
            let at = choose|at: int| 0 <= at < texts.len() && texts[at] == candidate@;
            assert(values@[at]@ == candidate@);
        }
    }
    let value: &str = if values.len() > 0 {
        values[0].as_str()
    } else {
        proof {
            reveal_strlit("");
            assert(""@ =~= Seq::<char>::empty());
        }
        ""
    };
    match operator {
        TextOperator::Eq => text::str_eq(candidate, value),
        TextOperator::EqIgnoreCase => {
            let folded = outside::fold_case(candidate);
            let folded_value = outside::fold_case(value);
            text::str_eq(folded.as_str(), folded_value.as_str())
        },
        TextOperator::Contains => text::contains(candidate, value),
        TextOperator::ContainsIgnoreCase => {
            let folded = outside::fold_case(candidate);
            let folded_value = outside::fold_case(value);
            text::contains(folded.as_str(), folded_value.as_str())
        },
        TextOperator::StartsWith => text::starts_with(candidate, value),
        TextOperator::StartsWithIgnoreCase => {
            let folded = outside::fold_case(candidate);
            let folded_value = outside::fold_case(value);
            text::starts_with(folded.as_str(), folded_value.as_str())
        },
        TextOperator::EndsWith => text::ends_with(candidate, value),
        TextOperator::EndsWithIgnoreCase => {
            let folded = outside::fold_case(candidate);
            let folded_value = outside::fold_case(value);
            text::ends_with(folded.as_str(), folded_value.as_str())
        },
        TextOperator::In => matching::listed_text(values, candidate),
        TextOperator::NotIn => !matching::listed_text(values, candidate),
        TextOperator::Regex | TextOperator::RegexIgnoreCase => match compiled_regex {
            Some(regex) => regex.is_match(candidate),
            None => false,
        },
        // Text has no ordering, so nothing matches.
        TextOperator::Lt | TextOperator::Lte | TextOperator::Gt | TextOperator::Gte => false,
    }
}

/// Report the reason a validation was refused.
fn validation_error(kind: FilterExpressionErrorKind) -> (result: Result<(), FilterExpressionError>)
    ensures
        error::reason(result) == Some(kind),
{
    Err(FilterExpressionError::new(kind))
}

/// Check the shape of a text test.
///
/// Text has no ordering, so an ordering operator on a text field is refused
/// rather than matching nothing in silence.
pub fn validate_text_shape(predicate: &TextPredicate) -> (result: Result<(), FilterExpressionError>)
    ensures
        error::reason(result) == model::text_shape(predicate@),
{
    if predicate.operator.is_ordering() {
        return validation_error(FilterExpressionErrorKind::UnknownOperator);
    }
    let one_value = predicate.values.len() == 1;
    let regex_state = predicate.operator.is_regex() == predicate.compiled_regex.is_some();
    let value_shape = matches!(predicate.operator, TextOperator::In | TextOperator::NotIn)
        || one_value;
    if regex_state && value_shape {
        Ok(())
    } else {
        validation_error(FilterExpressionErrorKind::InvalidStructure)
    }
}

/// Check that an operator and its number of operands agree.
pub fn validate_set_shape<T>(predicate: &SetPredicate<T>) -> (result: Result<
    (),
    FilterExpressionError,
>)
    ensures
        error::reason(result) == if model::set_shape(predicate.operator, predicate.values@.len()) {
            None
        } else {
            Some(FilterExpressionErrorKind::InvalidStructure)
        },
{
    if predicate.has_valid_shape() {
        Ok(())
    } else {
        validation_error(FilterExpressionErrorKind::InvalidStructure)
    }
}

/// Refuse an ordering operator.
pub fn validate_non_ordering(operator: SetOperator) -> (result: Result<(), FilterExpressionError>)
    ensures
        error::reason(result) == if operator.orders() {
            Some(FilterExpressionErrorKind::UnknownOperator)
        } else {
            None
        },
{
    if operator.is_ordering() {
        validation_error(FilterExpressionErrorKind::UnknownOperator)
    } else {
        Ok(())
    }
}

/// Check the shape of a test without ordering operators.
pub fn validate_unordered_set_shape<T>(predicate: &SetPredicate<T>) -> (result: Result<
    (),
    FilterExpressionError,
>)
    ensures
        error::reason(result) == model::unordered_shape(
            predicate.operator,
            predicate.values@.len(),
        ),
{
    match validate_non_ordering(predicate.operator) {
        Ok(()) => validate_set_shape(predicate),
        Err(error) => Err(error),
    }
}

/// The views of a list of variant names.
pub open spec fn names(variants: Seq<&str>) -> Seq<Seq<char>> {
    variants.map_values(|name: &str| name@)
}

/// Report whether a name is one of the variants.
fn is_variant(variants: &[&str], name: &str) -> (found: bool)
    ensures
        found == names(variants@).contains(name@),
{
    let mut index: usize = 0;
    while index < variants.len()
        invariant
            index <= variants@.len(),
            forall|i: int| 0 <= i < index ==> names(variants@)[i] != name@,
        decreases variants@.len() - index,
    {
        if text::str_eq(variants[index], name) {
            assert(names(variants@)[index as int] == name@);
            return true;
        }
        index += 1;
    }
    false
}

/// Check enum literals against the variants.
pub fn validate_enum_values(predicate: &SetPredicate<String>, variants: &[&str]) -> (result: Result<
    (),
    FilterExpressionError,
>)
    ensures
        error::reason(result) == model::enum_shape(
            matching::strings_view(*predicate),
            names(variants@),
        ),
{
    match validate_unordered_set_shape(predicate) {
        Ok(()) => {},
        Err(error) => return Err(error),
    }
    let ghost literals = matching::texts(predicate.values@);
    let mut index: usize = 0;
    while index < predicate.values.len()
        invariant
            index <= predicate.values@.len(),
            literals == matching::texts(predicate.values@),
            model::unordered_shape(predicate.operator, predicate.values@.len()) is None,
            forall|i: int|
                0 <= i < index ==> names(variants@).contains(#[trigger] literals[i]),
        decreases predicate.values@.len() - index,
    {
        if !is_variant(variants, predicate.values[index].as_str()) {
            assert(!names(variants@).contains(literals[index as int]));
            return validation_error(FilterExpressionErrorKind::InvalidLiteral);
        }
        index += 1;
    }
    Ok(())
}

/// Notations of integers are compared byte by byte.
proof fn lemma_literal_bytes(text: Seq<char>, number: int)
    ensures
        vstd::utf8::encode_utf8(text) == text::ascii(decimal::signed_decimal(number)) <==> text
            == decimal::signed_decimal(number),
{
    decimal::lemma_signed_decimal_is_ascii(number);
    text::lemma_ascii_encoding(decimal::signed_decimal(number));
    text::lemma_encoding_is_injective(text, decimal::signed_decimal(number));
}

/// A canonical notation denotes one integer.
proof fn lemma_literal_value(number: int)
    ensures
        model::literal_value(decimal::signed_decimal(number)) == number,
{
    let notation = decimal::signed_decimal(number);
    let value = model::literal_value(notation);
    assert(notation == decimal::signed_decimal(value));
    decimal::law_signed_notation_round_trips(number, value);
}

/// Read a signed literal in canonical notation and in range.
pub fn parse_signed(value: &str, minimum: i128, maximum: i128) -> (parsed: Result<
    i128,
    FilterExpressionError,
>)
    ensures
        match parsed {
            Ok(number) => value@ == decimal::signed_decimal(number as int) && minimum <= number
                <= maximum,
            Err(error) => !model::literal_in_range(value@, minimum as int, maximum as int)
                && error@ == FilterExpressionErrorKind::InvalidLiteral,
        },
{
    match decimal::parse_signed_decimal(value.as_bytes()) {
        Some(number) => {
            proof {
                lemma_literal_bytes(value@, number as int);
            }
            if minimum <= number && number <= maximum {
                Ok(number)
            } else {
                proof {
                    assert forall|other: int| minimum <= other <= maximum implies value@
                        != #[trigger] decimal::signed_decimal(other) by {
                        decimal::law_signed_notation_round_trips(number as int, other);
                    }
                }
                Err(FilterExpressionError::new(FilterExpressionErrorKind::InvalidLiteral))
            }
        },
        None => {
            proof {
                assert forall|other: int| minimum <= other <= maximum implies value@
                    != #[trigger] decimal::signed_decimal(other) by {
                    lemma_literal_bytes(value@, other);
                    let number = other as i128;
                    assert(decimal::signed_decimal(number as int) == decimal::signed_decimal(other));
                }
            }
            Err(FilterExpressionError::new(FilterExpressionErrorKind::InvalidLiteral))
        },
    }
}

/// Read an unsigned literal in canonical notation and in range.
pub fn parse_unsigned(value: &str, maximum: u128) -> (parsed: Result<u128, FilterExpressionError>)
    ensures
        match parsed {
            Ok(number) => value@ == decimal::signed_decimal(number as int) && number <= maximum,
            Err(error) => !model::literal_in_range(value@, 0, maximum as int) && error@
                == FilterExpressionErrorKind::InvalidLiteral,
        },
{
    match decimal::parse_unsigned_decimal(value.as_bytes()) {
        Some(number) => {
            proof {
                lemma_literal_bytes(value@, number as int);
            }
            if number <= maximum {
                Ok(number)
            } else {
                proof {
                    assert forall|other: int| 0 <= other <= maximum implies value@
                        != #[trigger] decimal::signed_decimal(other) by {
                        decimal::law_signed_notation_round_trips(number as int, other);
                    }
                }
                Err(FilterExpressionError::new(FilterExpressionErrorKind::InvalidLiteral))
            }
        },
        None => {
            proof {
                assert forall|other: int| 0 <= other <= maximum implies value@
                    != #[trigger] decimal::signed_decimal(other) by {
                    lemma_literal_bytes(value@, other);
                    let number = other as u128;
                    assert(decimal::decimal(number as nat) == decimal::signed_decimal(other));
                }
            }
            Err(FilterExpressionError::new(FilterExpressionErrorKind::InvalidLiteral))
        },
    }
}

/// Read every signed literal of a list.
fn parse_all_signed(values: &Vec<String>, minimum: i128, maximum: i128) -> (parsed: Result<
    Vec<i128>,
    FilterExpressionError,
>)
    ensures
        match parsed {
            Ok(numbers) => model::literals_in_range(
                matching::texts(values@),
                minimum as int,
                maximum as int,
            ) && numbers@ == matching::texts(values@).map_values(
                |text: Seq<char>| model::literal_value(text) as i128,
            ),
            Err(error) => !model::literals_in_range(
                matching::texts(values@),
                minimum as int,
                maximum as int,
            ) && error@ == FilterExpressionErrorKind::InvalidLiteral,
        },
{
    let ghost literals = matching::texts(values@);
    let mut numbers: Vec<i128> = Vec::new();
    let mut index: usize = 0;
    while index < values.len()
        invariant
            index <= values@.len(),
            literals == matching::texts(values@),
            numbers@.len() == index,
            forall|i: int|
                0 <= i < index ==> model::literal_in_range(
                    #[trigger] literals[i],
                    minimum as int,
                    maximum as int,
                ) && numbers@[i] == model::literal_value(literals[i]) as i128,
        decreases values@.len() - index,
    {
        match parse_signed(values[index].as_str(), minimum, maximum) {
            Ok(number) => {
                proof {
                    lemma_literal_value(number as int);
                    assert(literals[index as int] == decimal::signed_decimal(number as int));
                    assert(model::literal_in_range(
                        literals[index as int],
                        minimum as int,
                        maximum as int,
                    ));
                }
                numbers.push(number);
            },
            Err(error) => {
                assert(!model::literal_in_range(
                    literals[index as int],
                    minimum as int,
                    maximum as int,
                ));
                return Err(error);
            },
        }
        index += 1;
    }
    assert(numbers@ =~= literals.map_values(
        |text: Seq<char>| model::literal_value(text) as i128,
    ));
    Ok(numbers)
}

/// Read every unsigned literal of a list.
fn parse_all_unsigned(values: &Vec<String>, maximum: u128) -> (parsed: Result<
    Vec<u128>,
    FilterExpressionError,
>)
    ensures
        match parsed {
            Ok(numbers) => model::literals_in_range(matching::texts(values@), 0, maximum as int)
                && numbers@ == matching::texts(values@).map_values(
                |text: Seq<char>| model::literal_value(text) as u128,
            ),
            Err(error) => !model::literals_in_range(
                matching::texts(values@),
                0,
                maximum as int,
            ) && error@ == FilterExpressionErrorKind::InvalidLiteral,
        },
{
    let ghost literals = matching::texts(values@);
    let mut numbers: Vec<u128> = Vec::new();
    let mut index: usize = 0;
    while index < values.len()
        invariant
            index <= values@.len(),
            literals == matching::texts(values@),
            numbers@.len() == index,
            forall|i: int|
                0 <= i < index ==> model::literal_in_range(
                    #[trigger] literals[i],
                    0,
                    maximum as int,
                ) && numbers@[i] == model::literal_value(literals[i]) as u128,
        decreases values@.len() - index,
    {
        match parse_unsigned(values[index].as_str(), maximum) {
            Ok(number) => {
                proof {
                    lemma_literal_value(number as int);
                    assert(literals[index as int] == decimal::signed_decimal(number as int));
                    assert(model::literal_in_range(literals[index as int], 0, maximum as int));
                }
                numbers.push(number);
            },
            Err(error) => {
                assert(!model::literal_in_range(literals[index as int], 0, maximum as int));
                return Err(error);
            },
        }
        index += 1;
    }
    assert(numbers@ =~= literals.map_values(
        |text: Seq<char>| model::literal_value(text) as u128,
    ));
    Ok(numbers)
}

/// Report whether two readings of string literals are one reading.
fn same_reading(left: &WireStringResolved, right: &WireStringResolved) -> (same: bool)
    ensures
        same == model::same_reading(left@, right@),
{
    match (left, right) {
        (WireStringResolved::Text(left), WireStringResolved::Text(right)) => left.operator
            == right.operator && matching::same_texts(
            left.values.as_slice(),
            right.values.as_slice(),
        ),
        (WireStringResolved::Signed(left), WireStringResolved::Signed(right)) => left.operator
            == right.operator && matching::same_signed(
            left.values.as_slice(),
            right.values.as_slice(),
        ),
        (WireStringResolved::Unsigned(left), WireStringResolved::Unsigned(right)) => left.operator
            == right.operator && matching::same_unsigned(
            left.values.as_slice(),
            right.values.as_slice(),
        ),
        (WireStringResolved::Enum(left), WireStringResolved::Enum(right)) => left.operator
            == right.operator && matching::same_texts(
            left.values.as_slice(),
            right.values.as_slice(),
        ),
        _ => false,
    }
}

/// Settle string literals on one reading. A reading settled before has to
/// agree.
fn settle_string(wire: &mut WireStringPredicate, reading: WireStringResolved) -> (result: Result<
    (),
    FilterExpressionError,
>)
    ensures
        (
            error::reason(result),
            PredicateData::WireString(*final(wire))@,
        ) == model::settle_string(
            old(wire).operator,
            matching::texts(old(wire).values@),
            match old(wire).resolved {
                Some(settled) => Some(settled@),
                None => None,
            },
            reading@,
        ),
{
    match &wire.resolved {
        Some(settled) => {
            if same_reading(settled, &reading) {
                Ok(())
            } else {
                validation_error(FilterExpressionErrorKind::InvalidStructure)
            }
        },
        None => {
            wire.resolved = Some(reading);
            Ok(())
        },
    }
}

/// Settle an empty set of literals on one family.
fn settle_empty(wire: &mut WireEmptyPredicate, family: WireEmptyResolved) -> (result: Result<
    (),
    FilterExpressionError,
>)
    ensures
        (
            error::reason(result),
            PredicateData::WireEmpty(*final(wire))@,
        ) == model::settle_empty(old(wire).operator, old(wire).resolved, family),
{
    match validate_non_ordering(wire.operator) {
        Ok(()) => {},
        Err(error) => return Err(error),
    }
    match wire.resolved {
        Some(settled) => {
            if settled == family {
                Ok(())
            } else {
                validation_error(FilterExpressionErrorKind::InvalidStructure)
            }
        },
        None => {
            wire.resolved = Some(family);
            Ok(())
        },
    }
}

/// Read string literals as a text test and settle on it.
fn settle_text(wire: &mut WireStringPredicate) -> (result: Result<(), FilterExpressionError>)
    ensures
        (
            error::reason(result),
            PredicateData::WireString(*final(wire))@,
        ) == model::validated_text(PredicateData::WireString(*old(wire))@),
{
    let compiled_regex = if wire.operator.is_regex() {
        if wire.values.len() == 0 {
            return validation_error(FilterExpressionErrorKind::InvalidStructure);
        }
        match CompiledRegex::new(
            wire.values[0].as_str(),
            wire.operator == TextOperator::RegexIgnoreCase,
        ) {
            Ok(regex) => Some(regex),
            Err(error) => return Err(error),
        }
    } else {
        None
    };
    let reading = TextPredicate {
        operator: wire.operator,
        values: matching::copy_texts(&wire.values),
        compiled_regex,
    };
    match validate_text_shape(&reading) {
        Ok(()) => settle_string(wire, WireStringResolved::Text(reading)),
        Err(error) => Err(error),
    }
}

/// Read string literals as integers of one width and settle on them.
fn settle_integer(wire: &mut WireStringPredicate, kind: IntegerKind) -> (result: Result<
    (),
    FilterExpressionError,
>)
    ensures
        (
            error::reason(result),
            PredicateData::WireString(*final(wire))@,
        ) == model::validated_integer(PredicateData::WireString(*old(wire))@, kind),
{
    let operator = match wire.operator.set_operator() {
        Some(operator) => operator,
        None => return validation_error(FilterExpressionErrorKind::UnknownOperator),
    };
    // Only `in` and `not_in` take a set; everything else takes one value.
    if !operator.takes_a_set() && wire.values.len() != 1 {
        return validation_error(FilterExpressionErrorKind::InvalidStructure);
    }
    if let Some((minimum, maximum)) = kind.signed_bounds() {
        match parse_all_signed(&wire.values, minimum, maximum) {
            Ok(values) => settle_string(
                wire,
                WireStringResolved::Signed(SetPredicate { operator, values }),
            ),
            Err(error) => Err(error),
        }
    } else if let Some(maximum) = kind.unsigned_max() {
        match parse_all_unsigned(&wire.values, maximum) {
            Ok(values) => settle_string(
                wire,
                WireStringResolved::Unsigned(SetPredicate { operator, values }),
            ),
            Err(error) => Err(error),
        }
    } else {
        validation_error(FilterExpressionErrorKind::InvalidLiteral)
    }
}

/// Read string literals as names of variants and settle on them.
fn settle_enum(wire: &mut WireStringPredicate, variants: &[&str]) -> (result: Result<
    (),
    FilterExpressionError,
>)
    ensures
        (
            error::reason(result),
            PredicateData::WireString(*final(wire))@,
        ) == model::validated_enum(PredicateData::WireString(*old(wire))@, names(variants@)),
{
    let operator = match wire.operator.set_operator() {
        Some(operator) => operator,
        None => return validation_error(FilterExpressionErrorKind::UnknownOperator),
    };
    let reading = SetPredicate { operator, values: matching::copy_texts(&wire.values) };
    match validate_enum_values(&reading, variants) {
        Ok(()) => settle_string(wire, WireStringResolved::Enum(reading)),
        Err(error) => Err(error),
    }
}

impl Predicate {
    /// Validate that this predicate is a well-formed text predicate.
    ///
    /// # Errors
    ///
    /// [`FilterExpressionErrorKind::UnknownOperator`] for another scalar
    /// family, [`FilterExpressionErrorKind::InvalidStructure`] for an invalid
    /// shape, [`FilterExpressionErrorKind::InvalidRegex`] for a wire pattern
    /// that does not compile, and
    /// [`FilterExpressionErrorKind::InvalidLiteral`] for wire booleans.
    pub fn validate_text(&mut self) -> (result: Result<(), FilterExpressionError>)
        ensures
            (error::reason(result), final(self)@.data) == model::validated_text(old(self)@.data),
            final(self)@.field == old(self)@.field,
            final(self)@.target == old(self)@.target,
    {
        match &mut self.data {
            PredicateData::Text(predicate) => validate_text_shape(predicate),
            PredicateData::WireString(predicate) => settle_text(predicate),
            PredicateData::WireBool(_) => validation_error(
                FilterExpressionErrorKind::InvalidLiteral,
            ),
            PredicateData::WireEmpty(predicate) => settle_empty(predicate, WireEmptyResolved::Text),
            _ => validation_error(FilterExpressionErrorKind::UnknownOperator),
        }
    }

    /// Validate that this predicate is a well-formed boolean predicate.
    ///
    /// # Errors
    ///
    /// [`FilterExpressionErrorKind::UnknownOperator`] for another scalar
    /// family or an ordering operator,
    /// [`FilterExpressionErrorKind::InvalidStructure`] for an invalid shape,
    /// and [`FilterExpressionErrorKind::InvalidLiteral`] for wire strings.
    pub fn validate_bool(&mut self) -> (result: Result<(), FilterExpressionError>)
        ensures
            (error::reason(result), final(self)@.data) == model::validated_bool(old(self)@.data),
            final(self)@.field == old(self)@.field,
            final(self)@.target == old(self)@.target,
    {
        match &mut self.data {
            PredicateData::Bool(predicate) => validate_unordered_set_shape(predicate),
            PredicateData::WireBool(predicate) => {
                match validate_non_ordering(predicate.operator) {
                    Ok(()) => {},
                    Err(error) => return Err(error),
                }
                if !predicate.operator.takes_a_set() && predicate.values.len() != 1 {
                    return validation_error(FilterExpressionErrorKind::InvalidStructure);
                }
                predicate.resolved = true;
                Ok(())
            },
            PredicateData::WireString(predicate) => {
                if predicate.operator.set_operator().is_some() {
                    validation_error(FilterExpressionErrorKind::InvalidLiteral)
                } else {
                    validation_error(FilterExpressionErrorKind::UnknownOperator)
                }
            },
            PredicateData::WireEmpty(predicate) => settle_empty(predicate, WireEmptyResolved::Bool),
            _ => validation_error(FilterExpressionErrorKind::UnknownOperator),
        }
    }

    /// Validate this predicate for one fixed-width integer kind.
    ///
    /// # Errors
    ///
    /// [`FilterExpressionErrorKind::UnknownOperator`] for a non-integer
    /// family, [`FilterExpressionErrorKind::InvalidStructure`] for an invalid
    /// shape, or [`FilterExpressionErrorKind::InvalidLiteral`] for signedness
    /// or range mismatches.
    pub fn validate_integer(&mut self, kind: IntegerKind) -> (result: Result<
        (),
        FilterExpressionError,
    >)
        ensures
            (error::reason(result), final(self)@.data) == model::validated_integer(
                old(self)@.data,
                kind,
            ),
            final(self)@.field == old(self)@.field,
            final(self)@.target == old(self)@.target,
    {
        match &mut self.data {
            PredicateData::Signed(predicate) => {
                if !predicate.has_valid_shape() {
                    return validation_error(FilterExpressionErrorKind::InvalidStructure);
                }
                match kind.signed_bounds() {
                    Some((minimum, maximum)) => {
                        if signed_in_range(predicate.values.as_slice(), minimum, maximum) {
                            Ok(())
                        } else {
                            validation_error(FilterExpressionErrorKind::InvalidLiteral)
                        }
                    },
                    None => validation_error(FilterExpressionErrorKind::InvalidLiteral),
                }
            },
            PredicateData::Unsigned(predicate) => {
                if !predicate.has_valid_shape() {
                    return validation_error(FilterExpressionErrorKind::InvalidStructure);
                }
                match kind.unsigned_max() {
                    Some(maximum) => {
                        if unsigned_in_range(predicate.values.as_slice(), maximum) {
                            Ok(())
                        } else {
                            validation_error(FilterExpressionErrorKind::InvalidLiteral)
                        }
                    },
                    None => validation_error(FilterExpressionErrorKind::InvalidLiteral),
                }
            },
            PredicateData::WireString(predicate) => settle_integer(predicate, kind),
            PredicateData::WireBool(_) => validation_error(
                FilterExpressionErrorKind::InvalidLiteral,
            ),
            PredicateData::WireEmpty(predicate) => settle_empty(
                predicate,
                if kind.signed_bounds().is_some() {
                    WireEmptyResolved::Signed
                } else {
                    WireEmptyResolved::Unsigned
                },
            ),
            _ => validation_error(FilterExpressionErrorKind::UnknownOperator),
        }
    }

    /// Validate this predicate against a custom enum's stable variants.
    ///
    /// # Errors
    ///
    /// [`FilterExpressionErrorKind::UnknownOperator`] for another scalar
    /// family or an ordering operator,
    /// [`FilterExpressionErrorKind::InvalidStructure`] for an invalid shape,
    /// or [`FilterExpressionErrorKind::InvalidLiteral`] for an unknown
    /// variant.
    pub fn validate_enum(&mut self, variants: &[&str]) -> (result: Result<
        (),
        FilterExpressionError,
    >)
        ensures
            (error::reason(result), final(self)@.data) == model::validated_enum(
                old(self)@.data,
                names(variants@),
            ),
            final(self)@.field == old(self)@.field,
            final(self)@.target == old(self)@.target,
    {
        match &mut self.data {
            PredicateData::Enum(predicate) => validate_enum_values(predicate, variants),
            PredicateData::WireString(predicate) => settle_enum(predicate, variants),
            PredicateData::WireBool(_) => validation_error(
                FilterExpressionErrorKind::InvalidLiteral,
            ),
            PredicateData::WireEmpty(predicate) => settle_empty(predicate, WireEmptyResolved::Enum),
            _ => validation_error(FilterExpressionErrorKind::UnknownOperator),
        }
    }

    /// Validate this predicate as a to-many relation over `U`.
    ///
    /// Validation walks every nested logical branch and delegates each leaf to
    /// `U`.
    ///
    /// # Errors
    ///
    /// [`FilterExpressionErrorKind::UnknownOperator`] for a scalar predicate,
    /// [`FilterExpressionErrorKind::UnknownQuantifier`] for `is`, or the exact
    /// nested error.
    pub fn validate_many<U: Filterable>(&mut self) -> (result: Result<(), FilterExpressionError>)
        ensures
            (error::reason(result), final(self)@.data) == model::validated_many::<U>(
                old(self)@.data,
            ),
            final(self)@.field == old(self)@.field,
            final(self)@.target == old(self)@.target,
    {
        match &mut self.data {
            PredicateData::Relation(relation) => match relation.quantifier {
                RelationQuantifier::Any | RelationQuantifier::All | RelationQuantifier::NoneOf => {
                    matching::validate_expression::<U>(&mut relation.expression)
                },
                RelationQuantifier::Is => validation_error(
                    FilterExpressionErrorKind::UnknownQuantifier,
                ),
            },
            _ => validation_error(FilterExpressionErrorKind::UnknownOperator),
        }
    }

    /// Validate this predicate as a to-one relation over `U`.
    ///
    /// Validation walks every nested logical branch and delegates each leaf to
    /// `U`.
    ///
    /// # Errors
    ///
    /// [`FilterExpressionErrorKind::UnknownOperator`] for a scalar predicate,
    /// [`FilterExpressionErrorKind::UnknownQuantifier`] for a to-many
    /// quantifier, or the exact nested error.
    pub fn validate_one<U: Filterable>(&mut self) -> (result: Result<(), FilterExpressionError>)
        ensures
            (error::reason(result), final(self)@.data) == model::validated_one::<U>(
                old(self)@.data,
            ),
            final(self)@.field == old(self)@.field,
            final(self)@.target == old(self)@.target,
    {
        match &mut self.data {
            PredicateData::Relation(relation) => match relation.quantifier {
                RelationQuantifier::Is => matching::validate_expression::<U>(
                    &mut relation.expression,
                ),
                RelationQuantifier::Any | RelationQuantifier::All | RelationQuantifier::NoneOf => {
                    validation_error(FilterExpressionErrorKind::UnknownQuantifier)
                },
            },
            _ => validation_error(FilterExpressionErrorKind::UnknownOperator),
        }
    }
}

/// Report whether every signed integer is in the range.
fn signed_in_range(values: &[i128], minimum: i128, maximum: i128) -> (all: bool)
    ensures
        all == forall|i: int|
            0 <= i < values@.len() ==> minimum <= #[trigger] values@[i] <= maximum,
{
    let mut index: usize = 0;
    while index < values.len()
        invariant
            index <= values@.len(),
            forall|i: int| 0 <= i < index ==> minimum <= #[trigger] values@[i] <= maximum,
        decreases values@.len() - index,
    {
        if values[index] < minimum || values[index] > maximum {
            return false;
        }
        index += 1;
    }
    true
}

/// Report whether every unsigned integer is in the range.
fn unsigned_in_range(values: &[u128], maximum: u128) -> (all: bool)
    ensures
        all == forall|i: int| 0 <= i < values@.len() ==> #[trigger] values@[i] <= maximum,
{
    let mut index: usize = 0;
    while index < values.len()
        invariant
            index <= values@.len(),
            forall|i: int| 0 <= i < index ==> #[trigger] values@[i] <= maximum,
        decreases values@.len() - index,
    {
        if values[index] > maximum {
            return false;
        }
        index += 1;
    }
    true
}

/// Construct a text handle for generated code.
pub fn text_field<T>(target: &'static str, field: &'static str) -> (handle: TextField<T>)
    ensures
        handle.id() == (FieldId { target, field }),
{
    TextField::new(target, field)
}

/// Construct a boolean handle for generated code.
pub fn bool_field<T>(target: &'static str, field: &'static str) -> (handle: BoolField<T>)
    ensures
        handle.id() == (FieldId { target, field }),
{
    BoolField::new(target, field)
}

/// Construct an integer handle for generated code.
pub fn integer_field<T, N>(target: &'static str, field: &'static str) -> (handle: IntegerField<T, N>)
    ensures
        handle.id() == (FieldId { target, field }),
{
    IntegerField::new(target, field)
}

/// Construct a custom enum handle for generated code.
pub fn enum_field<T, E: FilterEnum>(target: &'static str, field: &'static str) -> (handle: EnumField<T, E>)
    ensures
        handle.id() == (FieldId { target, field }),
{
    EnumField::new(target, field)
}

/// Construct a to-many relation handle for generated code.
pub fn many_relation<From, To>(target: &'static str, field: &'static str) -> (handle: ManyRelation<From, To>)
    ensures
        handle.id() == (FieldId { target, field }),
{
    ManyRelation::new(target, field)
}

/// Construct a to-one relation handle for generated code.
pub fn one_relation<From, To>(target: &'static str, field: &'static str) -> (handle: OneRelation<From, To>)
    ensures
        handle.id() == (FieldId { target, field }),
{
    OneRelation::new(target, field)
}

/// Construct the generated fallback for an unknown field.
pub fn unknown_field_error() -> (error: FilterExpressionError)
    ensures
        error@ == FilterExpressionErrorKind::UnknownField,
{
    FilterExpressionError::new(FilterExpressionErrorKind::UnknownField)
}

} // verus!
