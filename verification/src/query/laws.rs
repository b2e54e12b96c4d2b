//! What tests on fields accept, stated over the texts, numbers and lists
//! themselves.

use vstd::prelude::*;
use vstd::utf8::*;

use crate::decimal;
use crate::json;
use crate::query::error::FilterExpressionErrorKind;
use crate::query::expression;
use crate::query::filterable::Filterable;
use crate::query::grammar;
use crate::query::grammar::RelationQuantifier;
use crate::query::grammar::SetOperator;
use crate::query::grammar::TextOperator;
use crate::query::matching::WireEmptyResolved;
use crate::query::model;
use crate::query::outside;
use crate::query::private::IntegerKind;
use crate::query::wire_model;

verus! {

/// Whether bytes pass a test of one operator against one text.
pub open spec fn passes_one(operator: TextOperator, value: Seq<char>, bytes: Seq<u8>) -> bool {
    model::bytes_pass(
        Some(
            model::ScalarV::Text(model::TextV { operator, values: seq![value], regex: None }),
        ),
        bytes,
    )
}

/// A text starts with a value exactly where its first characters are the value,
/// ends with it where its last ones are, contains it where the characters from
/// some position on are, and equals it where it is no longer.
pub proof fn law_text_tests_compare_characters(value: Seq<char>, text: Seq<char>)
    ensures
        passes_one(TextOperator::Eq, value, encode_utf8(text)) <==> text == value,
        passes_one(TextOperator::StartsWith, value, encode_utf8(text)) <==> value.len()
            <= text.len() && text.take(value.len() as int) == value,
        passes_one(TextOperator::EndsWith, value, encode_utf8(text)) <==> value.len()
            <= text.len() && text.skip(text.len() - value.len()) == value,
        passes_one(TextOperator::Contains, value, encode_utf8(text)) <==> exists|at: int|
            0 <= at <= text.len() - value.len() && #[trigger] text.skip(at).take(
                value.len() as int,
            ) == value,
{
    encode_utf8_valid_utf8(text);
    encode_utf8_decode_utf8(text);
    assert(seq![value][0] == value);
    if value.len() <= text.len() {
        assert(text.take(value.len() as int) =~= text.subrange(0, value.len() as int));
        assert(text.skip(text.len() - value.len()) =~= text.subrange(
            text.len() - value.len(),
            text.len() as int,
        ));
    }
    assert forall|at: int| 0 <= at <= text.len() - value.len() implies #[trigger] text.skip(
        at,
    ).take(value.len() as int) == text.subrange(at, at + value.len()) by {
        assert(text.skip(at).take(value.len() as int) =~= text.subrange(at, at + value.len()));
    }
    if passes_one(TextOperator::Contains, value, encode_utf8(text)) {
        let at = choose|at: int|
            0 <= at <= text.len() - value.len() && #[trigger] text.subrange(at, at + value.len())
                == value;
        assert(text.skip(at).take(value.len() as int) == value);
    }
    if exists|at: int|
        0 <= at <= text.len() - value.len() && #[trigger] text.skip(at).take(value.len() as int)
            == value {
        let at = choose|at: int|
            0 <= at <= text.len() - value.len() && #[trigger] text.skip(at).take(
                value.len() as int,
            ) == value;
        assert(text.subrange(at, at + value.len()) == value);
    }
}

/// A value with characters in front of it is found at the end, with characters
/// behind it at the start, and between others inside; it starts a text that has
/// characters in front of it only where the whole happens to begin with it.
pub proof fn law_text_tests_find_what_was_joined(
    front: Seq<char>,
    value: Seq<char>,
    back: Seq<char>,
)
    ensures
        passes_one(TextOperator::StartsWith, value, encode_utf8(value + back)),
        passes_one(TextOperator::EndsWith, value, encode_utf8(front + value)),
        passes_one(TextOperator::Contains, value, encode_utf8(front + value + back)),
        passes_one(TextOperator::StartsWith, value, encode_utf8(front + value)) <==> (front
            + value).take(value.len() as int) == value,
        passes_one(TextOperator::EndsWith, value, encode_utf8(value + back)) <==> (value
            + back).skip(back.len() as int) == value,
{
    law_text_tests_compare_characters(value, value + back);
    law_text_tests_compare_characters(value, front + value);
    law_text_tests_compare_characters(value, front + value + back);
    assert((value + back).take(value.len() as int) =~= value);
    assert((front + value).skip((front + value).len() - value.len()) =~= value);
    let whole = front + value + back;
    assert(whole.skip(front.len() as int).take(value.len() as int) =~= value);
}

/// A test up to case compares the folded texts as its exact counterpart
/// compares the texts.
pub proof fn law_tests_up_to_case_compare_folded_texts(value: Seq<char>, text: Seq<char>)
    ensures
        ({
            let folded = encode_utf8(outside::case_folded(text));
            let folded_value = outside::case_folded(value);
            let bytes = encode_utf8(text);
            &&& passes_one(TextOperator::EqIgnoreCase, value, bytes) <==> passes_one(
                TextOperator::Eq,
                folded_value,
                folded,
            )
            &&& passes_one(TextOperator::ContainsIgnoreCase, value, bytes) <==> passes_one(
                TextOperator::Contains,
                folded_value,
                folded,
            )
            &&& passes_one(TextOperator::StartsWithIgnoreCase, value, bytes) <==> passes_one(
                TextOperator::StartsWith,
                folded_value,
                folded,
            )
            &&& passes_one(TextOperator::EndsWithIgnoreCase, value, bytes) <==> passes_one(
                TextOperator::EndsWith,
                folded_value,
                folded,
            )
        }),
{
    encode_utf8_valid_utf8(text);
    encode_utf8_decode_utf8(text);
    encode_utf8_valid_utf8(outside::case_folded(text));
    encode_utf8_decode_utf8(outside::case_folded(text));
    assert(seq![value][0] == value);
    assert(seq![outside::case_folded(value)][0] == outside::case_folded(value));
}

/// A text is among values exactly where it is one of them, a pattern is what
/// decides a pattern test, no text passes an ordering, and what is not UTF-8
/// passes nothing.
pub proof fn law_text_sets_and_patterns(
    test: model::TextV,
    bytes: Seq<u8>,
    text: Seq<char>,
)
    ensures
        ({
            let passes = model::bytes_pass(Some(model::ScalarV::Text(test)), bytes);
            &&& !valid_utf8(bytes) ==> !passes
            &&& test.operator is Lt || test.operator is Lte || test.operator is Gt
                || test.operator is Gte ==> !passes
            &&& bytes == encode_utf8(text) && test.operator is In ==> (passes <==> exists|i: int|
                0 <= i < test.values.len() && #[trigger] test.values[i] == text)
            &&& bytes == encode_utf8(text) && test.operator is NotIn ==> (passes <==> forall|i: int|
                0 <= i < test.values.len() ==> #[trigger] test.values[i] != text)
            &&& bytes == encode_utf8(text) && (test.operator is Regex
                || test.operator is RegexIgnoreCase) ==> (passes <==> match test.regex {
                Some((pattern, ignore_case)) => outside::pattern_found(pattern, ignore_case, text),
                None => false,
            })
        }),
{
    encode_utf8_valid_utf8(text);
    encode_utf8_decode_utf8(text);
}

/// Numbers are compared as integers: against every operand of a set, and
/// against the first operand of an ordering.
pub proof fn law_number_tests_compare_integers(values: Seq<int>, candidate: int)
    ensures
        model::number_passes(SetOperator::In, values, candidate) <==> exists|i: int|
            0 <= i < values.len() && #[trigger] values[i] == candidate,
        model::number_passes(SetOperator::NotIn, values, candidate) <==> forall|i: int|
            0 <= i < values.len() ==> #[trigger] values[i] != candidate,
        model::number_passes(SetOperator::Eq, values, candidate) <==> exists|i: int|
            0 <= i < values.len() && #[trigger] values[i] == candidate,
        values.len() > 0 ==> {
            &&& model::number_passes(SetOperator::Lt, values, candidate) <==> candidate - values[0]
                < 0
            &&& model::number_passes(SetOperator::Lte, values, candidate) <==> candidate
                - values[0] <= 0
            &&& model::number_passes(SetOperator::Gt, values, candidate) <==> candidate - values[0]
                > 0
            &&& model::number_passes(SetOperator::Gte, values, candidate) <==> candidate
                - values[0] >= 0
        },
        values.len() == 0 ==> !model::number_passes(SetOperator::Lt, values, candidate)
            && !model::number_passes(SetOperator::Lte, values, candidate) && !model::number_passes(
            SetOperator::Gt,
            values,
            candidate,
        ) && !model::number_passes(SetOperator::Gte, values, candidate),
{
}

/// A signed number passes a test of signed operands as the integers compare,
/// an unsigned one a test of unsigned operands, and neither passes a test of
/// another family.
pub proof fn law_integer_fields_compare_integers(
    operator: SetOperator,
    signed: Seq<i128>,
    unsigned: Seq<u128>,
    candidate: int,
)
    ensures
        ({
            let test = Some(model::ScalarV::Signed(model::SetV { operator, values: signed }));
            let other = Some(model::ScalarV::Unsigned(model::SetV { operator, values: unsigned }));
            let among = exists|i: int| 0 <= i < signed.len() && #[trigger] signed[i] == candidate;
            let within = exists|i: int|
                0 <= i < unsigned.len() && #[trigger] unsigned[i] == candidate;
            &&& !model::signed_passes(other, candidate)
            &&& !model::unsigned_passes(test, candidate)
            &&& operator is Eq || operator is In ==> model::signed_passes(test, candidate) == among
                && model::unsigned_passes(other, candidate) == within
            &&& operator is NotIn ==> model::signed_passes(test, candidate) == !among
                && model::unsigned_passes(other, candidate) == !within
            &&& signed.len() > 0 && operator is Lt ==> model::signed_passes(test, candidate) == (
            candidate < signed[0])
            &&& signed.len() > 0 && operator is Lte ==> model::signed_passes(test, candidate) == (
            candidate <= signed[0])
            &&& signed.len() > 0 && operator is Gt ==> model::signed_passes(test, candidate) == (
            candidate > signed[0])
            &&& signed.len() > 0 && operator is Gte ==> model::signed_passes(test, candidate) == (
            candidate >= signed[0])
            &&& unsigned.len() > 0 && operator is Lt ==> model::unsigned_passes(other, candidate)
                == (candidate < unsigned[0])
            &&& unsigned.len() > 0 && operator is Lte ==> model::unsigned_passes(other, candidate)
                == (candidate <= unsigned[0])
            &&& unsigned.len() > 0 && operator is Gt ==> model::unsigned_passes(other, candidate)
                == (candidate > unsigned[0])
            &&& unsigned.len() > 0 && operator is Gte ==> model::unsigned_passes(other, candidate)
                == (candidate >= unsigned[0])
        }),
{
    let left = signed.map_values(|value: i128| value as int);
    let right = unsigned.map_values(|value: u128| value as int);
    law_number_tests_compare_integers(left, candidate);
    law_number_tests_compare_integers(right, candidate);
    assert(forall|i: int| 0 <= i < signed.len() ==> left[i] == #[trigger] signed[i]);
    assert(forall|i: int| 0 <= i < unsigned.len() ==> right[i] == #[trigger] unsigned[i]);
    if left.contains(candidate) {
        let i = choose|i: int| 0 <= i < left.len() && left[i] == candidate;
        assert(signed[i] == candidate);
    }
    if right.contains(candidate) {
        let i = choose|i: int| 0 <= i < right.len() && right[i] == candidate;
        assert(unsigned[i] == candidate);
    }
    if exists|i: int| 0 <= i < signed.len() && #[trigger] signed[i] == candidate {
        let i = choose|i: int| 0 <= i < signed.len() && #[trigger] signed[i] == candidate;
        assert(left[i] == candidate);
    }
    if exists|i: int| 0 <= i < unsigned.len() && #[trigger] unsigned[i] == candidate {
        let i = choose|i: int| 0 <= i < unsigned.len() && #[trigger] unsigned[i] == candidate;
        assert(right[i] == candidate);
    }
}

/// A flag is among flags exactly where it is one of them, and a name is among
/// names exactly where it is one of them.
pub proof fn law_flag_and_name_sets(
    operator: SetOperator,
    flags: Seq<bool>,
    names: Seq<Seq<char>>,
    flag: bool,
    name: Seq<char>,
)
    requires
        operator is Eq || operator is In || operator is NotIn,
    ensures
        model::bool_passes(
            Some(model::ScalarV::Bool(model::SetV { operator, values: flags })),
            flag,
        ) <==> (flags.contains(flag) <==> !(operator is NotIn)),
        model::enum_passes(
            Some(model::ScalarV::Enum(model::SetV { operator, values: names })),
            name,
        ) <==> (names.contains(name) <==> !(operator is NotIn)),
{
    let numbers = flags.map_values(|value: bool| model::bool_number(value));
    let number = model::bool_number(flag);
    if flags.contains(flag) {
        let i = choose|i: int| 0 <= i < flags.len() && flags[i] == flag;
        assert(numbers[i] == number);
    }
    if numbers.contains(number) {
        let i = choose|i: int| 0 <= i < numbers.len() && numbers[i] == number;
        assert(flags[i] == flag);
    }
}

/// A test of one family is passed by no value of another, and what was not
/// settled on a family by none.
pub proof fn law_tests_stay_in_their_family(
    test: Option<model::ScalarV>,
    bytes: Seq<u8>,
    flag: bool,
    number: int,
    name: Seq<char>,
)
    ensures
        model::bytes_pass(test, bytes) ==> test is Some && test->0 is Text,
        model::bool_passes(test, flag) ==> test is Some && test->0 is Bool,
        model::signed_passes(test, number) ==> test is Some && test->0 is Signed,
        model::unsigned_passes(test, number) ==> test is Some && test->0 is Unsigned,
        model::enum_passes(test, name) ==> test is Some && test->0 is Enum,
{
}

/// A conjunction accepts what all of its branches accept, a disjunction what
/// one of them accepts, a negation what its branch refuses, and a test what
/// passes it. An expression that could not be built accepts nothing.
pub proof fn law_expressions_accept_by_their_branches<T: Filterable>(
    expressions: Seq<model::ExprV>,
    inner: model::ExprV,
    predicate: model::PredicateV,
    candidate: &T,
)
    ensures
        model::accepts(model::ExprV::And(expressions), candidate) <==> forall|i: int|
            0 <= i < expressions.len() ==> model::accepts(#[trigger] expressions[i], candidate),
        model::accepts(model::ExprV::Or(expressions), candidate) <==> exists|i: int|
            0 <= i < expressions.len() && model::accepts(#[trigger] expressions[i], candidate),
        model::accepts(model::ExprV::Not(Box::new(inner)), candidate) <==> !model::accepts(
            inner,
            candidate,
        ),
        model::accepts(model::ExprV::Predicate(predicate), candidate) <==> candidate.passes(
            predicate,
        ),
        inner is Invalid ==> !model::accepts(inner, candidate),
{
    reveal_with_fuel(model::accepts, 2);
    reveal_with_fuel(model::all_accept, 2);
    reveal_with_fuel(model::any_accepts, 2);
}

/// Some, all or none of the related values are accepted, as the quantifier
/// says, counted over the list of those that are. One related value has to be
/// there and be accepted.
pub proof fn law_relations_count_what_is_accepted<T: Filterable>(
    expression: model::ExprV,
    related: Seq<T>,
    one: Option<T>,
)
    ensures
        ({
            let inner = Box::new(expression);
            let count = related.filter(|value: T| model::accepts(expression, &value)).len();
            &&& model::many_pass(model::DataV::Relation(RelationQuantifier::Any, inner), related)
                <==> count > 0
            &&& model::many_pass(model::DataV::Relation(RelationQuantifier::All, inner), related)
                <==> count == related.len()
            &&& model::many_pass(model::DataV::Relation(RelationQuantifier::NoneOf, inner), related)
                <==> count == 0
            &&& !model::many_pass(model::DataV::Relation(RelationQuantifier::Is, inner), related)
            &&& model::one_passes(model::DataV::Relation(RelationQuantifier::Is, inner), one) <==> (
            one is Some && model::accepts(expression, &one->0))
            &&& !model::one_passes(model::DataV::Relation(RelationQuantifier::Any, inner), one)
            &&& !model::one_passes(model::DataV::Relation(RelationQuantifier::All, inner), one)
            &&& !model::one_passes(model::DataV::Relation(RelationQuantifier::NoneOf, inner), one)
        }),
{
    let accepted = |value: T| model::accepts(expression, &value);
    lemma_counts(related, accepted);
    assert(forall|value: T| #[trigger] accepted(value) == model::accepts(expression, &value));
    let inner = Box::new(expression);
    if related.filter(accepted).len() > 0 {
        let i = choose|i: int| 0 <= i < related.len() && accepted(#[trigger] related[i]);
        assert(model::accepts(expression, &related[i]));
    }
    if related.filter(accepted).len() < related.len() {
        let i = choose|i: int| 0 <= i < related.len() && !accepted(#[trigger] related[i]);
        assert(!model::accepts(expression, &related[i]));
    }
    assert forall|i: int| 0 <= i < related.len() implies accepted(#[trigger] related[i])
        == model::accepts(expression, &related[i]) by {}
}

proof fn lemma_counts<T>(values: Seq<T>, test: spec_fn(T) -> bool)
    ensures
        values.filter(test).len() <= values.len(),
        values.filter(test).len() > 0 <==> exists|i: int|
            0 <= i < values.len() && test(#[trigger] values[i]),
        values.filter(test).len() < values.len() <==> exists|i: int|
            0 <= i < values.len() && !test(#[trigger] values[i]),
    decreases values.len(),
{
    reveal(Seq::filter);
    if values.len() > 0 {
        let head = values.drop_last();
        lemma_counts(head, test);
        assert forall|i: int| 0 <= i < head.len() implies #[trigger] head[i] == values[i] by {}
        assert(values[values.len() - 1] == values.last());
        if exists|i: int| 0 <= i < head.len() && test(#[trigger] head[i]) {
            let i = choose|i: int| 0 <= i < head.len() && test(#[trigger] head[i]);
            assert(test(values[i]));
        }
        if exists|i: int| 0 <= i < head.len() && !test(#[trigger] head[i]) {
            let i = choose|i: int| 0 <= i < head.len() && !test(#[trigger] head[i]);
            assert(!test(values[i]));
        }
        if exists|i: int| 0 <= i < values.len() && test(#[trigger] values[i]) {
            let i = choose|i: int| 0 <= i < values.len() && test(#[trigger] values[i]);
            if i < head.len() {
                assert(test(head[i]));
            }
        }
        if exists|i: int| 0 <= i < values.len() && !test(#[trigger] values[i]) {
            let i = choose|i: int| 0 <= i < values.len() && !test(#[trigger] values[i]);
            if i < head.len() {
                assert(!test(head[i]));
            }
        }
    }
}

/// The integers that each width holds, by their powers of two.
pub proof fn law_widths_hold_their_integers(kind: IntegerKind)
    ensures
        kind is I8 ==> kind.range() == (-0x80int, 0x7fint),
        kind is I16 ==> kind.range() == (-0x8000int, 0x7fffint),
        kind is I32 ==> kind.range() == (-0x8000_0000int, 0x7fff_ffffint),
        kind is I64 ==> kind.range() == (-0x8000_0000_0000_0000int, 0x7fff_ffff_ffff_ffffint),
        kind is U8 ==> kind.range() == (0int, 0xffint),
        kind is U16 ==> kind.range() == (0int, 0xffffint),
        kind is U32 ==> kind.range() == (0int, 0xffff_ffffint),
        kind is U64 ==> kind.range() == (0int, 0xffff_ffff_ffff_ffffint),
        kind is I128 ==> kind.range() == (i128::MIN as int, i128::MAX as int),
        kind is U128 ==> kind.range() == (0int, u128::MAX as int),
        kind.is_signed() <==> kind.range().0 < 0,
{
}

/// A text test stands on a text field where its operator orders nothing, it has
/// a pattern exactly where its operator takes one, and it has one operand unless
/// its operator takes a set. It is kept as it is.
pub proof fn law_text_tests_stand_on_texts(test: model::TextV)
    ensures
        ({
            let (reason, settled) = model::validated_text(model::DataV::Text(test));
            let ordering = test.operator is Lt || test.operator is Lte || test.operator is Gt
                || test.operator is Gte;
            let pattern = test.operator is Regex || test.operator is RegexIgnoreCase;
            let set = test.operator is In || test.operator is NotIn;
            let shaped = pattern == (test.regex is Some) && (set || test.values.len() == 1);
            &&& settled == model::DataV::Text(test)
            &&& ordering ==> reason == Some(FilterExpressionErrorKind::UnknownOperator)
            &&& !ordering ==> (reason is None <==> shaped)
            &&& !ordering && !shaped ==> reason == Some(FilterExpressionErrorKind::InvalidStructure)
        }),
{
}

/// Literals settle on texts with their operator and as they are, and a pattern
/// is compiled from the first. An ordering, a wrong number of literals and a
/// pattern that does not compile are refused, and so are flags.
pub proof fn law_literals_settle_on_texts(
    operator: TextOperator,
    values: Seq<Seq<char>>,
    flags: model::DataV,
)
    requires
        flags is WireBool,
    ensures
        ({
            let data = model::DataV::WireString { operator, values, resolved: None };
            let (reason, settled) = model::validated_text(data);
            let ordering = operator is Lt || operator is Lte || operator is Gt || operator is Gte;
            let pattern = operator is Regex || operator is RegexIgnoreCase;
            let set = operator is In || operator is NotIn;
            let compiles = outside::pattern_compiles(values[0], operator is RegexIgnoreCase);
            &&& ordering ==> reason == Some(FilterExpressionErrorKind::UnknownOperator)
            &&& pattern && values.len() > 0 && !compiles ==> reason == Some(
                FilterExpressionErrorKind::InvalidRegex,
            )
            &&& !ordering && !set && values.len() != 1 && !(pattern && values.len() > 0
                && !compiles) ==> reason == Some(FilterExpressionErrorKind::InvalidStructure)
            &&& !ordering && (set || values.len() == 1) && (pattern ==> compiles) ==> reason is None
                && settled.scalar() == Some(
                model::ScalarV::Text(
                    model::TextV {
                        operator,
                        values,
                        regex: if pattern {
                            Some((values[0], operator is RegexIgnoreCase))
                        } else {
                            None
                        },
                    },
                ),
            )
            &&& reason is Some ==> settled == data
        }),
        model::validated_text(flags) == (Some(FilterExpressionErrorKind::InvalidLiteral), flags),
{
}

/// Literals settle on integers exactly where their operator compares numbers,
/// there is one of them unless the operator takes a set, and each is the
/// notation of a number of the field's width. They then are those numbers, in
/// their order.
pub proof fn law_literals_settle_on_integers(
    operator: TextOperator,
    numbers: Seq<int>,
    kind: IntegerKind,
)
    ensures
        ({
            let values = numbers.map_values(|number: int| decimal::signed_decimal(number));
            let data = model::DataV::WireString { operator, values, resolved: None };
            let (reason, settled) = model::validated_integer(data, kind);
            let (minimum, maximum) = kind.range();
            let set = operator is In || operator is NotIn;
            let compares = set || operator is Eq || operator is Lt || operator is Lte || operator
                is Gt || operator is Gte;
            let counted = set || numbers.len() == 1;
            let fits = forall|i: int|
                0 <= i < numbers.len() ==> minimum <= #[trigger] numbers[i] <= maximum;
            &&& !compares ==> reason == Some(FilterExpressionErrorKind::UnknownOperator)
            &&& compares && !counted ==> reason == Some(FilterExpressionErrorKind::InvalidStructure)
            &&& compares && counted && !fits ==> reason == Some(
                FilterExpressionErrorKind::InvalidLiteral,
            )
            &&& compares && counted && fits ==> reason is None && match settled.scalar() {
                Some(model::ScalarV::Signed(test)) => kind.is_signed() && test.operator.spelling()
                    == operator.spelling() && test.values.len() == numbers.len() && forall|i: int|
                    0 <= i < numbers.len() ==> #[trigger] test.values[i] == numbers[i],
                Some(model::ScalarV::Unsigned(test)) => !kind.is_signed()
                    && test.operator.spelling() == operator.spelling() && test.values.len()
                    == numbers.len() && forall|i: int|
                    0 <= i < numbers.len() ==> #[trigger] test.values[i] == numbers[i],
                _ => false,
            }
        }),
{
    let values = numbers.map_values(|number: int| decimal::signed_decimal(number));
    let (minimum, maximum) = kind.range();
    assert forall|i: int| 0 <= i < numbers.len() implies model::literal_value(
        #[trigger] values[i],
    ) == numbers[i] && (model::literal_in_range(values[i], minimum, maximum) <==> minimum
        <= numbers[i] <= maximum) by {
        let text = decimal::signed_decimal(numbers[i]);
        assert(values[i] == text);
        decimal::law_signed_notation_round_trips(numbers[i], model::literal_value(text));
        if model::literal_in_range(text, minimum, maximum) {
            let number = choose|number: int|
                minimum <= number <= maximum && text == #[trigger] decimal::signed_decimal(number);
            decimal::law_signed_notation_round_trips(numbers[i], number);
        }
    }
    if forall|i: int| 0 <= i < numbers.len() ==> minimum <= #[trigger] numbers[i] <= maximum {
        assert(model::literals_in_range(values, minimum, maximum));
    } else {
        let i = choose|i: int|
            0 <= i < numbers.len() && !(minimum <= #[trigger] numbers[i] <= maximum);
        assert(!model::literal_in_range(values[i], minimum, maximum));
    }
}

/// A literal that is the notation of no integer settles on no integer field.
pub proof fn law_other_literals_are_no_integers(
    operator: TextOperator,
    values: Seq<Seq<char>>,
    kind: IntegerKind,
    index: int,
)
    requires
        0 <= index < values.len(),
        forall|number: int| values[index] != #[trigger] decimal::signed_decimal(number),
    ensures
        model::validated_integer(
            model::DataV::WireString { operator, values, resolved: None },
            kind,
        ).0 is Some,
{
    let (minimum, maximum) = kind.range();
    assert(!model::literal_in_range(values[index], minimum, maximum));
}

/// A test of integers stands on a field of their sign where each fits the
/// field's width and there is one of them unless the operator takes a set.
pub proof fn law_integer_tests_stand_on_their_width(
    operator: SetOperator,
    signed: Seq<i128>,
    unsigned: Seq<u128>,
    kind: IntegerKind,
)
    ensures
        ({
            let test = model::DataV::Signed(model::SetV { operator, values: signed });
            let other = model::DataV::Unsigned(model::SetV { operator, values: unsigned });
            let (minimum, maximum) = kind.range();
            let set = operator is In || operator is NotIn;
            &&& model::validated_integer(test, kind).1 == test
            &&& model::validated_integer(other, kind).1 == other
            &&& model::validated_integer(test, kind).0 is None <==> kind.is_signed() && (set
                || signed.len() == 1) && forall|i: int|
                0 <= i < signed.len() ==> minimum <= #[trigger] signed[i] <= maximum
            &&& model::validated_integer(other, kind).0 is None <==> !kind.is_signed() && (set
                || unsigned.len() == 1) && forall|i: int|
                0 <= i < unsigned.len() ==> minimum <= #[trigger] unsigned[i] <= maximum
            &&& !set && signed.len() != 1 ==> model::validated_integer(test, kind).0 == Some(
                FilterExpressionErrorKind::InvalidStructure,
            )
            &&& (set || signed.len() == 1) && !kind.is_signed() ==> model::validated_integer(
                test,
                kind,
            ).0 == Some(FilterExpressionErrorKind::InvalidLiteral)
        }),
{
}

/// Flags and names stand on their fields where their operator orders nothing
/// and there is one of them unless the operator takes a set, and every name is
/// one of the field's.
pub proof fn law_flags_and_names_stand_on_their_fields(
    operator: SetOperator,
    flags: Seq<bool>,
    names: Seq<Seq<char>>,
    variants: Seq<Seq<char>>,
)
    ensures
        ({
            let ordering = operator is Lt || operator is Lte || operator is Gt || operator is Gte;
            let set = operator is In || operator is NotIn;
            let test = model::DataV::Bool(model::SetV { operator, values: flags });
            let wire = model::DataV::WireBool { operator, values: flags, resolved: false };
            let other = model::DataV::Enum(model::SetV { operator, values: names });
            let known = forall|i: int|
                0 <= i < names.len() ==> variants.contains(#[trigger] names[i]);
            &&& model::validated_bool(test).0 is None <==> !ordering && (set || flags.len() == 1)
            &&& model::validated_bool(wire).0 == model::validated_bool(test).0
            &&& model::validated_bool(wire).0 is None ==> model::validated_bool(wire).1.scalar()
                == Some(model::ScalarV::Bool(model::SetV { operator, values: flags }))
            &&& ordering ==> model::validated_bool(test).0 == Some(
                FilterExpressionErrorKind::UnknownOperator,
            ) && model::validated_enum(other, variants).0 == Some(
                FilterExpressionErrorKind::UnknownOperator,
            )
            &&& !ordering && !set && flags.len() != 1 ==> model::validated_bool(test).0 == Some(
                FilterExpressionErrorKind::InvalidStructure,
            )
            &&& model::validated_enum(other, variants).0 is None <==> !ordering && (set
                || names.len() == 1) && known
            &&& !ordering && (set || names.len() == 1) && !known ==> model::validated_enum(
                other,
                variants,
            ).0 == Some(FilterExpressionErrorKind::InvalidLiteral)
            &&& model::validated_enum(other, variants).1 == other
        }),
{
}

/// Literals settle on a field of names as a test of those names stands on it.
pub proof fn law_literals_settle_on_names(
    operator: SetOperator,
    names: Seq<Seq<char>>,
    variants: Seq<Seq<char>>,
)
    requires
        operator is Eq || operator is In || operator is NotIn,
    ensures
        ({
            let wire = model::DataV::WireString {
                operator: TextOperator::of_set(operator)->0,
                values: names,
                resolved: None,
            };
            let test = model::DataV::Enum(model::SetV { operator, values: names });
            &&& model::validated_enum(wire, variants).0 == model::validated_enum(test, variants).0
            &&& model::validated_enum(wire, variants).0 is None ==> model::validated_enum(
                wire,
                variants,
            ).1.scalar() == Some(model::ScalarV::Enum(model::SetV { operator, values: names }))
        }),
{
}

/// A relation over many values takes some, all or none of them, and a relation
/// over one takes the one. The inner expression is checked against the related
/// values, and its reason is the relation's.
pub proof fn law_relations_are_checked_inside<T: Filterable>(
    quantifier: RelationQuantifier,
    inner: model::ExprV,
    other: model::DataV,
)
    requires
        !(other is Relation),
    ensures
        ({
            let data = model::DataV::Relation(quantifier, Box::new(inner));
            let (reason, settled) = model::validated::<T>(inner);
            let kept = model::DataV::Relation(quantifier, Box::new(settled));
            &&& quantifier is Is ==> model::validated_many::<T>(data) == (
                Some(FilterExpressionErrorKind::UnknownQuantifier),
                data,
            ) && model::validated_one::<T>(data) == (reason, kept)
            &&& !(quantifier is Is) ==> model::validated_many::<T>(data) == (reason, kept)
                && model::validated_one::<T>(data) == (
                Some(FilterExpressionErrorKind::UnknownQuantifier),
                data,
            )
        }),
        model::validated_many::<T>(other) == (
            Some(FilterExpressionErrorKind::UnknownOperator),
            other,
        ),
        model::validated_one::<T>(other) == (
            Some(FilterExpressionErrorKind::UnknownOperator),
            other,
        ),
{
}

/// A test that is bound to another target is refused, and so is one whose field
/// is no wire name. Any other is bound to the target and checked by it.
pub proof fn law_tests_are_checked_by_their_target<T: Filterable>(predicate: model::PredicateV)
    ensures
        ({
            let (reason, settled) = model::validated_predicate::<T>(predicate);
            let foreign = predicate.target is Some && predicate.target->0 != T::target_name();
            let (checked, data) = T::checked(predicate.field, predicate.data);
            &&& settled.field == predicate.field
            &&& foreign ==> reason == Some(FilterExpressionErrorKind::InvalidTarget) && settled
                == predicate
            &&& !foreign ==> settled.target == Some(T::target_name())
            &&& !foreign && !model::wire_name(predicate.field) ==> reason == Some(
                FilterExpressionErrorKind::UnknownField,
            ) && settled.data == predicate.data
            &&& !foreign && model::wire_name(predicate.field) ==> reason == checked && settled.data
                == data
        }),
{
}

/// An expression is refused for the first reason among its branches, in their
/// order, and every branch is settled all the same.
pub proof fn law_the_first_reason_stands<T: Filterable>(
    expressions: Seq<model::ExprV>,
    inner: model::ExprV,
    index: int,
)
    requires
        0 <= index < expressions.len(),
    ensures
        ({
            let (reason, settled) = model::validated::<T>(model::ExprV::And(expressions));
            let (other, either) = model::validated::<T>(model::ExprV::Or(expressions));
            let first = model::validated::<T>(expressions[index]).0 is Some && forall|i: int|
                0 <= i < index ==> model::validated::<T>(#[trigger] expressions[i]).0 is None;
            &&& first ==> reason == model::validated::<T>(expressions[index]).0 && other == reason
            &&& (forall|i: int|
                0 <= i < expressions.len() ==> model::validated::<T>(
                    #[trigger] expressions[i],
                ).0 is None) ==> reason is None && other is None
            &&& settled is And && settled->And_0.len() == expressions.len()
                && settled->And_0[index] == model::validated::<T>(expressions[index]).1
            &&& either is Or && either->Or_0 == settled->And_0
        }),
        ({
            let (reason, settled) = model::validated::<T>(model::ExprV::Not(Box::new(inner)));
            &&& reason == model::validated::<T>(inner).0
            &&& settled == model::ExprV::Not(Box::new(model::validated::<T>(inner).1))
        }),
        inner matches model::ExprV::Invalid(reason) ==> model::validated::<T>(inner).0 == Some(
            reason,
        ),
{
    reveal_with_fuel(model::validated, 2);
    reveal_with_fuel(model::validated_branches, 2);
    let outcomes = model::validated_branches::<T>(expressions);
    assert forall|i: int| 0 <= i < expressions.len() implies #[trigger] outcomes[i]
        == model::validated::<T>(expressions[i]) by {}
    let reasons = model::reasons(outcomes);
    assert forall|i: int| 0 <= i < expressions.len() implies #[trigger] reasons[i]
        == model::validated::<T>(expressions[i]).0 by {}
    lemma_first_reason(reasons, index);
}

proof fn lemma_first_reason(
    reasons: Seq<Option<FilterExpressionErrorKind>>,
    index: int,
)
    requires
        0 <= index < reasons.len(),
    ensures
        reasons[index] is Some && (forall|i: int| 0 <= i < index ==> #[trigger] reasons[i] is None)
            ==> model::first_reason(reasons) == reasons[index],
        (forall|i: int| 0 <= i < reasons.len() ==> #[trigger] reasons[i] is None)
            ==> model::first_reason(reasons) is None,
    decreases reasons.len(),
{
    reveal_with_fuel(model::first_reason, 2);
    let rest = reasons.skip(1);
    assert forall|i: int| 0 <= i < rest.len() implies #[trigger] rest[i] == reasons[i + 1] by {}
    if rest.len() > 0 {
        lemma_first_reason(rest, if index > 0 { index - 1 } else { 0 });
    }
}

/// A wire name is a lower-case letter and then lower-case letters, digits and
/// underscores, whatever its length.
pub proof fn law_wire_names(name: Seq<char>, next: char)
    ensures
        model::wire_name(seq![next]) <==> 'a' <= next <= 'z',
        !model::wire_name(Seq::empty()),
        name.len() > 0 ==> (model::wire_name(name.push(next)) <==> model::wire_name(name) && ('a'
            <= next <= 'z' || '0' <= next <= '9' || next == '_')),
{
    let longer = name.push(next);
    if name.len() > 0 {
        assert(longer[0] == name[0]);
        assert(longer[name.len() as int] == next);
        assert forall|i: int| 0 < i < name.len() implies #[trigger] longer[i] == name[i] by {}
        if model::wire_name(longer) {
            assert forall|i: int| 0 < i < name.len() implies model::wire_character(
                #[trigger] name[i],
            ) by {
                assert(longer[i] == name[i]);
            }
        }
    }
}

/// The member that is found by a name is the first one with it, and a position
/// behind the last member says that there is none.
pub proof fn law_members_are_found_by_name(members: Seq<json::MemberV>, name: Seq<char>)
    ensures
        ({
            let at = wire_model::position(members, name);
            &&& 0 <= at <= members.len()
            &&& at < members.len() ==> members[at].name == name
            &&& forall|i: int| 0 <= i < at ==> (#[trigger] members[i]).name != name
        }),
    decreases members.len(),
{
    if members.len() > 0 {
        let head = members.drop_last();
        law_members_are_found_by_name(head, name);
        let at = wire_model::position(members, name);
        assert forall|i: int| 0 <= i < at implies (#[trigger] members[i]).name != name by {
            if i < head.len() {
                assert(head[i] == members[i]);
            }
        }
    }
}

/// An object is refused exactly where one of its members has a name that is not
/// known, or the name of an earlier member.
pub proof fn law_members_are_known_and_named_once(
    members: Seq<json::MemberV>,
    known: Seq<Seq<char>>,
)
    ensures
        wire_model::has_invalid_member(members, known) <==> exists|i: int|
            0 <= i < members.len() && (!known.contains((#[trigger] members[i]).name) || exists|
                j: int,
            |
                0 <= j < i && (#[trigger] members[j]).name == members[i].name),
{
    assert forall|i: int| 0 <= i < members.len() implies (wire_model::accepted_member(
        #[trigger] members.take(i),
        members[i],
        known,
    ) <==> known.contains(members[i].name) && forall|j: int|
        0 <= j < i ==> (#[trigger] members[j]).name != members[i].name) by {
        let earlier = members.take(i);
        law_members_are_found_by_name(earlier, members[i].name);
        assert forall|j: int| 0 <= j < i implies #[trigger] earlier[j] == members[j] by {}
        let at = wire_model::position(earlier, members[i].name);
        if at < i {
            assert(members[at].name == members[i].name);
        } else {
            assert forall|j: int| 0 <= j < i implies (#[trigger] members[j]).name
                != members[i].name by {
                assert(earlier[j] == members[j]);
            }
        }
    }
    if wire_model::has_invalid_member(members, known) {
        let i = choose|i: int|
            0 <= i < members.len() && !wire_model::accepted_member(
                #[trigger] members.take(i),
                members[i],
                known,
            );
        assert(!known.contains(members[i].name) || exists|j: int|
            0 <= j < i && (#[trigger] members[j]).name == members[i].name);
    }
    if exists|i: int|
        0 <= i < members.len() && (!known.contains((#[trigger] members[i]).name) || exists|j: int|
            0 <= j < i && (#[trigger] members[j]).name == members[i].name) {
        let i = choose|i: int|
            0 <= i < members.len() && (!known.contains((#[trigger] members[i]).name) || exists|
                j: int,
            |
                0 <= j < i && (#[trigger] members[j]).name == members[i].name);
        assert(!wire_model::accepted_member(members.take(i), members[i], known));
    }
}

/// The version is one exactly for the number one, whatever notation it has.
/// Another whole number is a version that is not supported, and anything else
/// is none.
pub proof fn law_versions_are_numbers(document: json::JsonV, signed: i128, unsigned: u128)
    ensures
        wire_model::version(json::JsonV::Number(json::Number::Signed(signed))) is One <==> signed
            == 1,
        wire_model::version(json::JsonV::Number(json::Number::Unsigned(unsigned))) is One
            <==> unsigned == 1,
        wire_model::version(json::JsonV::Number(json::Number::Signed(signed))) is Unsupported
            <==> signed != 1,
        wire_model::version(json::JsonV::Number(json::Number::Unsigned(unsigned))) is Unsupported
            <==> unsigned != 1,
        wire_model::version(json::JsonV::Number(json::Number::Float(json::FloatShape::One)))
            is One,
        wire_model::version(json::JsonV::Number(json::Number::Float(json::FloatShape::Integral)))
            is Unsupported,
        !(document is Number) ==> wire_model::version(document) is Invalid,
{
}

/// A document is decoded for a target only where it is an object of a version,
/// the target's name and an expression, each once and nothing else, the version
/// is one, and the expression keeps its shape and its limits. The reasons come
/// in this order.
pub proof fn law_envelopes_are_decoded_for_their_target<T: Filterable>(
    members: Seq<json::MemberV>,
    document: json::JsonV,
)
    requires
        !(document is Object),
    ensures
        wire_model::decoded::<T>(document) == Err::<model::ExprV, FilterExpressionErrorKind>(
            FilterExpressionErrorKind::InvalidStructure,
        ),
        ({
            let decoded = wire_model::decoded::<T>(json::JsonV::Object(members));
            let known = seq!["version"@, "target"@, "expr"@];
            let versioned = wire_model::position(members, "version"@);
            let target = wire_model::member_value(members, "target"@);
            let expression = wire_model::member_expression(members, "expr"@);
            let shaped = !wire_model::has_invalid_member(members, known) && versioned
                != members.len() && wire_model::is_string(target) && expression is Some
                && expression->0 is Node && wire_model::structured(*expression->0->Node_0)
                && wire_model::within_limits(*expression->0->Node_0);
            let version = wire_model::version(members[versioned].value);
            &&& !shaped ==> decoded is Err && decoded->Err_0 is InvalidStructure
            &&& shaped && version is Invalid ==> decoded is Err && decoded->Err_0
                is InvalidStructure
            &&& shaped && version is Unsupported ==> decoded is Err && decoded->Err_0
                is UnsupportedVersion
            &&& shaped && version is One && target->0->String_0 != T::target_name() ==> decoded
                is Err && decoded->Err_0 is InvalidTarget
            &&& decoded is Ok ==> shaped && version is One && target->0->String_0
                == T::target_name() && model::resolved(decoded->Ok_0) && wire_model::built(
                *expression->0->Node_0,
            ) is Ok && model::validated::<T>(
                wire_model::built(*expression->0->Node_0)->Ok_0,
            ) == (None::<FilterExpressionErrorKind>, decoded->Ok_0)
        }),
{
    law_members_are_found_by_name(members, "version"@);
    assert(wire_model::envelope_names() =~= seq!["version"@, "target"@, "expr"@]);
}

/// An expression nests at most 64 deep, has at most 4096 nodes, and no set of
/// it has more than 4096 literals. A node counts itself and what is nested in
/// it.
pub proof fn law_expressions_keep_their_limits(node: wire_model::RawNodeV, limit: int)
    ensures
        wire_model::within_limits(node) <==> wire_model::depth_within(node, 64)
            && wire_model::node_count(node) <= 4096 && wire_model::sets_within(node),
        !wire_model::depth_within(node, 0),
        node.args is None && node.expression is None ==> {
            &&& wire_model::node_count(node) == 1
            &&& wire_model::depth_within(node, limit) <==> limit > 0
            &&& wire_model::sets_within(node) <==> match node.value {
                Some(wire_model::WireValueV::Strings(values)) => values.len() <= 4096,
                Some(wire_model::WireValueV::Bools(values)) => values.len() <= 4096,
                _ => true,
            }
        },
        node.args is None ==> (node.expression matches Some(
            wire_model::RawExpressionV::Node(inner),
        ) ==> {
            &&& wire_model::node_count(node) == 1 + wire_model::node_count(*inner)
            &&& wire_model::depth_within(node, limit) <==> limit > 0 && wire_model::depth_within(
                *inner,
                limit - 1,
            )
            &&& node.value is None ==> (wire_model::sets_within(node) <==> wire_model::sets_within(
                *inner,
            ))
        }),
        node.expression is None ==> (node.args matches Some(
            wire_model::RawArgsV::Nodes(nodes),
        ) ==> {
            &&& wire_model::node_count(node) == 1 + wire_model::total_count(nodes)
            &&& wire_model::depth_within(node, limit) <==> limit > 0 && forall|i: int|
                0 <= i < nodes.len() ==> wire_model::depth_within(#[trigger] nodes[i], limit - 1)
            &&& node.value is None ==> (wire_model::sets_within(node) <==> forall|i: int|
                0 <= i < nodes.len() ==> wire_model::sets_within(#[trigger] nodes[i]))
        }),
{
    reveal_with_fuel(wire_model::depth_within, 2);
    reveal_with_fuel(wire_model::all_depth_within, 2);
    reveal_with_fuel(wire_model::node_count, 2);
    reveal_with_fuel(wire_model::sets_within, 2);
    reveal_with_fuel(wire_model::all_sets_within, 2);
}

/// The nodes of a list are counted one by one.
pub proof fn law_nodes_are_counted_one_by_one(
    nodes: Seq<wire_model::RawNodeV>,
    node: wire_model::RawNodeV,
)
    ensures
        wire_model::total_count(Seq::empty()) == 0,
        wire_model::total_count(nodes.push(node)) == wire_model::total_count(nodes)
            + wire_model::node_count(node),
{
    reveal_with_fuel(wire_model::total_count, 2);
    assert(nodes.push(node).drop_last() =~= nodes);
}

/// A node keeps its shape by its operator: a conjunction or disjunction has two
/// branches or more and nothing else, a negation an expression and nothing
/// else, a relation a field, a quantifier and an expression, and a test a field
/// and a literal, or a set of them where the operator takes one.
pub proof fn law_nodes_keep_the_shape_of_their_operator(node: wire_model::RawNodeV)
    ensures
        node.invalid_member ==> !wire_model::structured(node),
        !wire_model::is_string(node.op) ==> !wire_model::structured(node),
        node.op == Some(wire_model::WireValueV::String("and"@)) || node.op == Some(
            wire_model::WireValueV::String("or"@),
        ) ==> (wire_model::structured(node) <==> !node.invalid_member && node.expression is None
            && node.field is None && node.value is None && node.quantifier is None && match node.args {
            Some(wire_model::RawArgsV::Nodes(nodes)) => nodes.len() >= 2 && forall|i: int|
                0 <= i < nodes.len() ==> wire_model::structured(#[trigger] nodes[i]),
            _ => false,
        }),
        node.op == Some(wire_model::WireValueV::String("not"@)) ==> (wire_model::structured(node)
            <==> !node.invalid_member && node.args is None && node.field is None && node.value
            is None && node.quantifier is None && match node.expression {
            Some(wire_model::RawExpressionV::Node(inner)) => wire_model::structured(*inner),
            _ => false,
        }),
        node.op == Some(wire_model::WireValueV::String("relation"@)) ==> (wire_model::structured(
            node,
        ) <==> !node.invalid_member && node.args is None && node.value is None
            && wire_model::is_string(node.field) && wire_model::is_string(node.quantifier)
            && match node.expression {
            Some(wire_model::RawExpressionV::Node(inner)) => wire_model::structured(*inner),
            _ => false,
        }),
{
    reveal_with_fuel(wire_model::structured, 2);
    reveal_with_fuel(wire_model::args_shape, 2);
    reveal_with_fuel(wire_model::all_structured, 2);
    reveal_with_fuel(wire_model::nested_shape, 2);
    reveal_strlit("and");
    reveal_strlit("or");
    reveal_strlit("not");
    reveal_strlit("relation");
    assert("and"@.len() == 3 && "or"@.len() == 2 && "not"@.len() == 3 && "relation"@.len() == 8);
    assert("and"@[0] != "not"@[0]);
}

/// A test has a literal that its operator takes: an equality a text or a flag,
/// a membership a set of texts, of flags or of nothing, and any other a text.
pub proof fn law_literals_fit_their_operator(operator: TextOperator, value: wire_model::WireValueV)
    ensures
        !wire_model::scalar_shape(operator, None),
        operator is Eq ==> (wire_model::scalar_shape(operator, Some(value)) <==> value is String
            || value is Bool),
        operator is In || operator is NotIn ==> (wire_model::scalar_shape(operator, Some(value))
            <==> value is Strings || value is Bools || value is Empty),
        !(operator is Eq || operator is In || operator is NotIn) ==> (wire_model::scalar_shape(
            operator,
            Some(value),
        ) <==> value is String),
{
}

/// A document that an expression is written as holds its operator and its
/// branches: a conjunction and a disjunction an array of what each branch is
/// written as, in their order, a negation what its branch is written as, and a
/// relation its field and quantifier besides.
pub proof fn law_documents_hold_their_branches(
    branches: Seq<model::ExprV>,
    inner: model::ExprV,
    predicate: model::PredicateV,
    quantifier: RelationQuantifier,
)
    requires
        predicate.data == model::DataV::Relation(quantifier, Box::new(inner)),
    ensures
        wire_model::encoded(model::ExprV::And(branches)) matches Ok(document) ==> {
            let held = wire_model::encoded_all(branches);
            &&& held is Ok
            &&& document == json::JsonV::Object(
                seq![
                    json::MemberV { name: "op"@, value: json::JsonV::String("and"@) },
                    json::MemberV { name: "args"@, value: json::JsonV::Array(held->Ok_0) },
                ],
            )
        },
        wire_model::encoded(model::ExprV::Or(branches)) matches Ok(document) ==> {
            let held = wire_model::encoded_all(branches);
            &&& held is Ok
            &&& document == json::JsonV::Object(
                seq![
                    json::MemberV { name: "op"@, value: json::JsonV::String("or"@) },
                    json::MemberV { name: "args"@, value: json::JsonV::Array(held->Ok_0) },
                ],
            )
        },
        wire_model::encoded(inner) matches Ok(document) ==> {
            &&& wire_model::encoded(model::ExprV::Not(Box::new(inner))) == Ok::<
                json::JsonV,
                FilterExpressionErrorKind,
            >(
                json::JsonV::Object(
                    seq![
                        json::MemberV { name: "op"@, value: json::JsonV::String("not"@) },
                        json::MemberV { name: "expr"@, value: document },
                    ],
                ),
            )
            &&& wire_model::encoded(model::ExprV::Predicate(predicate)) == Ok::<
                json::JsonV,
                FilterExpressionErrorKind,
            >(
                json::JsonV::Object(
                    seq![
                        json::MemberV { name: "op"@, value: json::JsonV::String("relation"@) },
                        json::MemberV {
                            name: "field"@,
                            value: json::JsonV::String(predicate.field),
                        },
                        json::MemberV {
                            name: "quantifier"@,
                            value: json::JsonV::String(quantifier.spelling()),
                        },
                        json::MemberV { name: "expr"@, value: document },
                    ],
                ),
            )
        },
        wire_model::encoded(inner) matches Err(reason) ==> wire_model::encoded(
            model::ExprV::Not(Box::new(inner)),
        ) == Err::<json::JsonV, FilterExpressionErrorKind>(reason) && wire_model::encoded(
            model::ExprV::Predicate(predicate),
        ) == Err::<json::JsonV, FilterExpressionErrorKind>(reason),
{
    reveal_with_fuel(wire_model::encoded, 2);
}

/// Branches are written one by one, in their order.
pub proof fn law_branches_are_written_in_order(branches: Seq<model::ExprV>, index: int)
    requires
        0 <= index < branches.len(),
    ensures
        wire_model::encoded_all(branches) matches Ok(documents) ==> documents.len()
            == branches.len() && wire_model::encoded(branches[index]) == Ok::<
            json::JsonV,
            FilterExpressionErrorKind,
        >(documents[index]),
        wire_model::encoded(branches[index]) is Err ==> wire_model::encoded_all(branches) is Err,
    decreases branches.len(),
{
    reveal_with_fuel(wire_model::encoded_all, 2);
    let head = branches.drop_last();
    if index < head.len() {
        law_branches_are_written_in_order(head, index);
        assert(head[index] == branches[index]);
    } else {
        if head.len() > 0 {
            law_branches_are_written_in_order(head, 0);
        }
        assert(branches[branches.len() - 1] == branches[index]);
    }
}

/// A test is written as its operator, its field and its literal: a text as a
/// string, a flag as a boolean, a number as the string of its notation, and the
/// operands of a set as an array.
pub proof fn law_tests_are_written_with_their_literals(
    target: Option<Seq<char>>,
    field: Seq<char>,
    data: model::DataV,
)
    requires
        !(data is Relation),
    ensures
        ({
            let written = wire_model::encoded(
                model::ExprV::Predicate(model::PredicateV { target, field, data }),
            );
            let value = wire_model::scalar_value(data.scalar()->0);
            &&& data.scalar() is None ==> written is Err
            &&& data.scalar() is Some && value is Err ==> written is Err
            &&& data.scalar() is Some && value is Ok ==> written == Ok::<
                json::JsonV,
                FilterExpressionErrorKind,
            >(
                json::JsonV::Object(
                    seq![
                        json::MemberV {
                            name: "op"@,
                            value: json::JsonV::String(data.operator_spelling()),
                        },
                        json::MemberV { name: "field"@, value: json::JsonV::String(field) },
                        json::MemberV { name: "value"@, value: value->Ok_0 },
                    ],
                ),
            )
        }),
{
    reveal_with_fuel(wire_model::encoded, 2);
}

/// One operand is written as a literal, and the operands of a set as an array
/// of literals, in their order.
pub proof fn law_operands_are_written_in_order(
    text: model::TextV,
    flags: model::SetV<bool>,
    signed: model::SetV<i128>,
    unsigned: model::SetV<u128>,
    index: int,
)
    ensures
        text.operator is In || text.operator is NotIn ==> {
            let written = wire_model::scalar_value(model::ScalarV::Text(text));
            &&& written is Ok && written->Ok_0 is Array
            &&& written->Ok_0->Array_0.len() == text.values.len()
            &&& 0 <= index < text.values.len() ==> written->Ok_0->Array_0[index]
                == json::JsonV::String(text.values[index])
        },
        !(text.operator is In || text.operator is NotIn) && text.values.len() > 0
            ==> wire_model::scalar_value(model::ScalarV::Text(text)) == Ok::<
            json::JsonV,
            FilterExpressionErrorKind,
        >(json::JsonV::String(text.values[0])),
        flags.operator is In || flags.operator is NotIn ==> {
            let written = wire_model::scalar_value(model::ScalarV::Bool(flags));
            &&& written is Ok && written->Ok_0 is Array
            &&& written->Ok_0->Array_0.len() == flags.values.len()
            &&& 0 <= index < flags.values.len() ==> written->Ok_0->Array_0[index]
                == json::JsonV::Bool(flags.values[index])
        },
        !(flags.operator is In || flags.operator is NotIn) && flags.values.len() > 0
            ==> wire_model::scalar_value(model::ScalarV::Bool(flags)) == Ok::<
            json::JsonV,
            FilterExpressionErrorKind,
        >(json::JsonV::Bool(flags.values[0])),
        signed.operator is In || signed.operator is NotIn ==> {
            let written = wire_model::scalar_value(model::ScalarV::Signed(signed));
            &&& written is Ok && written->Ok_0 is Array
            &&& written->Ok_0->Array_0.len() == signed.values.len()
            &&& 0 <= index < signed.values.len() ==> written->Ok_0->Array_0[index]
                == json::JsonV::String(decimal::signed_decimal(signed.values[index] as int))
        },
        !(signed.operator is In || signed.operator is NotIn) && signed.values.len() > 0
            ==> wire_model::scalar_value(model::ScalarV::Signed(signed)) == Ok::<
            json::JsonV,
            FilterExpressionErrorKind,
        >(json::JsonV::String(decimal::signed_decimal(signed.values[0] as int))),
        unsigned.operator is In || unsigned.operator is NotIn ==> {
            let written = wire_model::scalar_value(model::ScalarV::Unsigned(unsigned));
            &&& written is Ok && written->Ok_0 is Array
            &&& written->Ok_0->Array_0.len() == unsigned.values.len()
            &&& 0 <= index < unsigned.values.len() ==> written->Ok_0->Array_0[index]
                == json::JsonV::String(decimal::signed_decimal(unsigned.values[index] as int))
        },
        !(unsigned.operator is In || unsigned.operator is NotIn) && unsigned.values.len() > 0
            ==> wire_model::scalar_value(model::ScalarV::Unsigned(unsigned)) == Ok::<
            json::JsonV,
            FilterExpressionErrorKind,
        >(json::JsonV::String(decimal::signed_decimal(unsigned.values[0] as int))),
{
}

/// What a document holds as a literal: a string, a boolean, and arrays of
/// either. An empty array is of no family yet, and a mixed one is no literal.
pub proof fn law_literals_are_read_from_documents(
    texts: Seq<Seq<char>>,
    flags: Seq<bool>,
    text: Seq<char>,
    flag: bool,
    rest: Seq<json::JsonV>,
)
    ensures
        wire_model::wire_value(json::JsonV::String(text)) == wire_model::WireValueV::String(text),
        wire_model::wire_value(json::JsonV::Bool(flag)) == wire_model::WireValueV::Bool(flag),
        wire_model::wire_value(json::JsonV::Array(Seq::empty())) is Empty,
        texts.len() > 0 ==> wire_model::wire_value(
            json::JsonV::Array(texts.map_values(|text: Seq<char>| json::JsonV::String(text))),
        ) == wire_model::WireValueV::Strings(texts),
        flags.len() > 0 ==> wire_model::wire_value(
            json::JsonV::Array(flags.map_values(|flag: bool| json::JsonV::Bool(flag))),
        ) == wire_model::WireValueV::Bools(flags),
        wire_model::wire_value(
            json::JsonV::Array(seq![json::JsonV::String(text), json::JsonV::Bool(flag)] + rest),
        ) is Other,
{
    let strings = texts.map_values(|text: Seq<char>| json::JsonV::String(text));
    assert(strings.map_values(|value: json::JsonV| value->String_0) =~= texts);
    let bools = flags.map_values(|flag: bool| json::JsonV::Bool(flag));
    if flags.len() > 0 {
        assert(bools[0] is Bool);
    }
    assert(bools.map_values(|value: json::JsonV| value->Bool_0) =~= flags);
    let mixed = seq![json::JsonV::String(text), json::JsonV::Bool(flag)] + rest;
    assert(mixed[0] is String);
    assert(mixed[1] is Bool);
}

/// A test is built from its operator, its field and its literal, and refused
/// where the operator or the field is none.
pub proof fn law_tests_are_built_from_their_parts(
    operator: TextOperator,
    label: Seq<char>,
    field: Seq<char>,
    node: wire_model::RawNodeV,
)
    requires
        node.field == Some(wire_model::WireValueV::String(field)),
    ensures
        (forall|known: TextOperator| #[trigger] known.spelling() != label)
            ==> wire_model::built_scalar(label, node) == Err::<
            model::ExprV,
            FilterExpressionErrorKind,
        >(FilterExpressionErrorKind::UnknownOperator),
        !model::wire_name(field) ==> wire_model::built_scalar(operator.spelling(), node) == Err::<
            model::ExprV,
            FilterExpressionErrorKind,
        >(FilterExpressionErrorKind::UnknownField),
        model::wire_name(field) ==> (node.value matches Some(wire_model::WireValueV::String(value))
            ==> wire_model::built_scalar(operator.spelling(), node) == Ok::<
            model::ExprV,
            FilterExpressionErrorKind,
        >(
            model::ExprV::Predicate(
                model::PredicateV {
                    target: None,
                    field,
                    data: model::DataV::WireString {
                        operator,
                        values: seq![value],
                        resolved: None,
                    },
                },
            ),
        )),
        model::wire_name(field) ==> (node.value matches Some(
            wire_model::WireValueV::Strings(values),
        ) ==> wire_model::built_scalar(operator.spelling(), node) == Ok::<
            model::ExprV,
            FilterExpressionErrorKind,
        >(
            model::ExprV::Predicate(
                model::PredicateV {
                    target: None,
                    field,
                    data: model::DataV::WireString { operator, values, resolved: None },
                },
            ),
        )),
{
    let spelled = TextOperator::spelled(operator.spelling())->0;
    assert(operator.spelling() == operator.spelling());
    grammar::law_text_spellings_are_distinct(spelled, operator);
    if forall|known: TextOperator| #[trigger] known.spelling() != label {
        assert(TextOperator::spelled(label) is None);
    }
}

/// Joining branches loses none, keeps their order and opens exactly the
/// branches of the same kind.
pub proof fn law_joined_branches_are_opened(
    conjunction: bool,
    earlier: Seq<model::ExprV>,
    branch: model::ExprV,
)
    ensures
        wire_model::flattened(conjunction, Seq::empty()) == Seq::<model::ExprV>::empty(),
        branch is And && conjunction ==> wire_model::flattened(conjunction, earlier.push(branch))
            == wire_model::flattened(conjunction, earlier) + branch->And_0,
        branch is Or && !conjunction ==> wire_model::flattened(conjunction, earlier.push(branch))
            == wire_model::flattened(conjunction, earlier) + branch->Or_0,
        !(branch is And && conjunction) && !(branch is Or && !conjunction)
            ==> wire_model::flattened(conjunction, earlier.push(branch)) == wire_model::flattened(
            conjunction,
            earlier,
        ).push(branch),
{
    let longer = earlier.push(branch);
    assert(longer.drop_last() =~= earlier);
    assert(wire_model::flattened(conjunction, earlier) + seq![branch] =~= wire_model::flattened(
        conjunction,
        earlier,
    ).push(branch));
}

/// Combining joins the branches of both sides, those of the left in front, and
/// takes a side that is no junction of the kind as one branch.
pub proof fn law_sides_are_joined(left: model::ExprV, branches: Seq<model::ExprV>)
    ensures
        expression::conjuncts(model::ExprV::And(branches)) == branches,
        expression::disjuncts(model::ExprV::Or(branches)) == branches,
        !(left is And) ==> expression::conjuncts(left) == seq![left],
        !(left is Or) ==> expression::disjuncts(left) == seq![left],
{
}

/// Two expressions are one exactly where they are of one kind and their
/// branches are one expression each, in their order.
pub proof fn law_expressions_are_compared_branch_by_branch(
    left: Seq<model::ExprV>,
    right: Seq<model::ExprV>,
    one: model::ExprV,
    other: model::ExprV,
)
    ensures
        model::same_expression(model::ExprV::And(left), model::ExprV::And(right)) <==> left.len()
            == right.len() && forall|i: int|
            0 <= i < left.len() ==> model::same_expression(#[trigger] left[i], right[i]),
        model::same_expression(model::ExprV::Or(left), model::ExprV::Or(right)) <==> left.len()
            == right.len() && forall|i: int|
            0 <= i < left.len() ==> model::same_expression(#[trigger] left[i], right[i]),
        model::same_expression(
            model::ExprV::Not(Box::new(one)),
            model::ExprV::Not(Box::new(other)),
        ) <==> model::same_expression(one, other),
        !model::same_expression(model::ExprV::And(left), model::ExprV::Or(right)),
        !model::same_expression(model::ExprV::Not(Box::new(one)), model::ExprV::And(right)),
        !model::same_expression(model::ExprV::Not(Box::new(one)), model::ExprV::Or(right)),
        one is Predicate && !(other is Predicate) ==> !model::same_expression(one, other),
{
    reveal_with_fuel(model::same_expression, 2);
    reveal_with_fuel(model::same_branches, 2);
}

/// Two tests are one exactly where they name one field of one target and hold
/// one operator with the same operands. A compiled pattern takes no part.
pub proof fn law_tests_are_compared_by_their_parts(
    left: model::PredicateV,
    right: model::PredicateV,
)
    ensures
        model::same_predicate(left, right) ==> left.field == right.field,
        model::same_predicate(left, right) ==> ({
            let one = left.target is None || left.target->0.len() == 0;
            let other = right.target is None || right.target->0.len() == 0;
            one && other || left.target == right.target
        }),
        left.target == right.target && left.field == right.field ==> (match (
            left.data,
            right.data,
        ) {
            (model::DataV::Text(one), model::DataV::Text(other)) => model::same_predicate(
                left,
                right,
            ) <==> one.operator == other.operator && one.values == other.values,
            (model::DataV::Bool(one), model::DataV::Bool(other)) => model::same_predicate(
                left,
                right,
            ) <==> one == other,
            (model::DataV::Signed(one), model::DataV::Signed(other)) => model::same_predicate(
                left,
                right,
            ) <==> one == other,
            (model::DataV::Unsigned(one), model::DataV::Unsigned(other)) => model::same_predicate(
                left,
                right,
            ) <==> one == other,
            (model::DataV::Enum(one), model::DataV::Enum(other)) => model::same_predicate(
                left,
                right,
            ) <==> one == other,
            (
                model::DataV::Relation(one, inner),
                model::DataV::Relation(other, nested),
            ) => model::same_predicate(left, right) <==> one == other && model::same_expression(
                *inner,
                *nested,
            ),
            (model::DataV::Text(_), model::DataV::Enum(_)) => !model::same_predicate(left, right),
            (model::DataV::Signed(_), model::DataV::Unsigned(_)) => !model::same_predicate(
                left,
                right,
            ),
            _ => true,
        }),
{
    reveal_with_fuel(model::same_predicate, 2);
    reveal_with_fuel(model::same_data, 2);
    let one = model::named_target(left.target);
    let other = model::named_target(right.target);
    if one == other {
        if left.target is None {
            assert(other.len() == 0);
        }
        if right.target is None {
            assert(one.len() == 0);
        }
    }
}

/// An empty set settles on the family of the field that it is tested on, with
/// no operand. An ordering over nothing is refused.
pub proof fn law_empty_sets_settle_on_any_family(
    operator: SetOperator,
    kind: IntegerKind,
    variants: Seq<Seq<char>>,
)
    ensures
        ({
            let data = model::DataV::WireEmpty { operator, resolved: None };
            let texts = model::validated_text(data);
            let flags = model::validated_bool(data);
            let numbers = model::validated_integer(data, kind);
            let names = model::validated_enum(data, variants);
            let ordering = operator is Lt || operator is Lte || operator is Gt || operator is Gte;
            let refused = Some(FilterExpressionErrorKind::UnknownOperator);
            &&& ordering ==> texts.0 == refused && flags.0 == refused && numbers.0 == refused
                && names.0 == refused
            &&& !ordering ==> texts.0 is None && flags.0 is None && numbers.0 is None && names.0
                is None
            &&& !ordering ==> texts.1.scalar() == Some(
                model::ScalarV::Text(
                    model::TextV {
                        operator: TextOperator::of_set(operator)->0,
                        values: Seq::empty(),
                        regex: None,
                    },
                ),
            )
            &&& !ordering ==> flags.1.scalar() == Some(
                model::ScalarV::Bool(model::SetV { operator, values: Seq::empty() }),
            )
            &&& !ordering && kind.is_signed() ==> numbers.1.scalar() == Some(
                model::ScalarV::Signed(model::SetV { operator, values: Seq::empty() }),
            )
            &&& !ordering && !kind.is_signed() ==> numbers.1.scalar() == Some(
                model::ScalarV::Unsigned(model::SetV { operator, values: Seq::empty() }),
            )
            &&& !ordering ==> names.1.scalar() == Some(
                model::ScalarV::Enum(model::SetV { operator, values: Seq::empty() }),
            )
        }),
{
}

/// A test is refused by a field of another family: one of texts by a field of
/// flags or numbers, one of numbers or flags by a field of texts, and a
/// relation by all of them.
pub proof fn law_tests_are_refused_by_other_families(
    text: model::TextV,
    flags: model::SetV<bool>,
    numbers: model::SetV<i128>,
    relation: model::DataV,
    kind: IntegerKind,
    variants: Seq<Seq<char>>,
)
    requires
        relation is Relation,
    ensures
        ({
            let refused = Some(FilterExpressionErrorKind::UnknownOperator);
            &&& model::validated_bool(model::DataV::Text(text)).0 == refused
            &&& model::validated_integer(model::DataV::Text(text), kind).0 == refused
            &&& model::validated_enum(model::DataV::Text(text), variants).0 == refused
            &&& model::validated_text(model::DataV::Bool(flags)).0 == refused
            &&& model::validated_integer(model::DataV::Bool(flags), kind).0 == refused
            &&& model::validated_enum(model::DataV::Bool(flags), variants).0 == refused
            &&& model::validated_text(model::DataV::Signed(numbers)).0 == refused
            &&& model::validated_bool(model::DataV::Signed(numbers)).0 == refused
            &&& model::validated_enum(model::DataV::Signed(numbers), variants).0 == refused
            &&& model::validated_text(relation).0 == refused
            &&& model::validated_bool(relation).0 == refused
            &&& model::validated_integer(relation, kind).0 == refused
            &&& model::validated_enum(relation, variants).0 == refused
        }),
{
}

/// Literals that settled once settle again only on the same reading, and keep
/// it.
pub proof fn law_settled_literals_stay_settled(
    operator: TextOperator,
    values: Seq<Seq<char>>,
    reading: model::StringResolvedV,
    other: model::StringResolvedV,
)
    ensures
        model::settle_string(operator, values, None, reading) == (
            None::<FilterExpressionErrorKind>,
            model::DataV::WireString { operator, values, resolved: Some(reading) },
        ),
        model::settle_string(operator, values, Some(reading), reading).0 is None,
        model::settle_string(operator, values, Some(reading), other).1
            == (model::DataV::WireString { operator, values, resolved: Some(reading) }),
        reading is Signed && !(other is Signed) || reading is Unsigned && !(other is Unsigned)
            || reading is Text && !(other is Text) || reading is Enum && !(other is Enum)
            ==> model::settle_string(operator, values, Some(reading), other).0 == Some(
            FilterExpressionErrorKind::InvalidStructure,
        ),
        !(reading is Text) ==> (model::settle_string(operator, values, Some(reading), other).0
            is None <==> reading == other),
        reading matches model::StringResolvedV::Text(one) ==> (
        other matches model::StringResolvedV::Text(two) ==> (model::settle_string(
            operator,
            values,
            Some(reading),
            other,
        ).0 is None <==> one.operator == two.operator && one.values == two.values)),
{
}

/// An empty set that settled on a family once settles on no other.
pub proof fn law_settled_sets_stay_settled(
    operator: SetOperator,
    family: WireEmptyResolved,
    other: WireEmptyResolved,
)
    requires
        operator is Eq || operator is In || operator is NotIn,
    ensures
        model::settle_empty(operator, None, family) == (
            None::<FilterExpressionErrorKind>,
            model::DataV::WireEmpty { operator, resolved: Some(family) },
        ),
        model::settle_empty(operator, Some(family), other).0 is None <==> family == other,
        model::settle_empty(operator, Some(family), other).1 == (model::DataV::WireEmpty {
            operator,
            resolved: Some(family),
        }),
{
}

/// The targets of an expression are wire names and, outside relations, the
/// expected one, and its fields are wire names everywhere.
pub proof fn law_names_on_the_wire(
    expressions: Seq<model::ExprV>,
    inner: model::ExprV,
    predicate: model::PredicateV,
    expected: Seq<char>,
)
    ensures
        model::wire_targets(model::ExprV::And(expressions), Some(expected)) <==> forall|i: int|
            0 <= i < expressions.len() ==> model::wire_targets(
                #[trigger] expressions[i],
                Some(expected),
            ),
        model::wire_targets(model::ExprV::Or(expressions), Some(expected)) <==> forall|i: int|
            0 <= i < expressions.len() ==> model::wire_targets(
                #[trigger] expressions[i],
                Some(expected),
            ),
        model::wire_targets(model::ExprV::Not(Box::new(inner)), Some(expected))
            <==> model::wire_targets(inner, Some(expected)),
        !(predicate.data is Relation) ==> (model::wire_targets(
            model::ExprV::Predicate(predicate),
            Some(expected),
        ) <==> predicate.target == Some(expected) && model::wire_name(expected) || (predicate.target
            is None && expected.len() == 0 && model::wire_name(expected))),
        !(predicate.data is Relation) ==> (model::wire_fields(model::ExprV::Predicate(predicate))
            <==> model::wire_name(predicate.field)),
        predicate.data matches model::DataV::Relation(_, nested) ==> (model::wire_fields(
            model::ExprV::Predicate(predicate),
        ) <==> model::wire_name(predicate.field) && model::wire_fields(*nested)),
        model::wire_fields(model::ExprV::And(expressions)) <==> forall|i: int|
            0 <= i < expressions.len() ==> model::wire_fields(#[trigger] expressions[i]),
        model::wire_fields(model::ExprV::Or(expressions)) <==> forall|i: int|
            0 <= i < expressions.len() ==> model::wire_fields(#[trigger] expressions[i]),
        model::wire_fields(model::ExprV::Not(Box::new(inner))) <==> model::wire_fields(inner),
{
    reveal_with_fuel(model::wire_targets, 2);
    reveal_with_fuel(model::all_wire_targets, 2);
    reveal_with_fuel(model::wire_fields, 2);
    reveal_with_fuel(model::all_wire_fields, 2);
    if predicate.target is None && expected.len() == 0 {
        assert(expected =~= Seq::empty());
    }
    if predicate.target is None && model::named_target(predicate.target) == expected {
        assert(expected.len() == 0);
    }
}

/// An expression is resolved where the family of every literal of it is known.
pub proof fn law_expressions_are_resolved_by_their_branches(
    expressions: Seq<model::ExprV>,
    inner: model::ExprV,
    predicate: model::PredicateV,
)
    ensures
        model::resolved(model::ExprV::And(expressions)) <==> forall|i: int|
            0 <= i < expressions.len() ==> model::resolved(#[trigger] expressions[i]),
        model::resolved(model::ExprV::Or(expressions)) <==> forall|i: int|
            0 <= i < expressions.len() ==> model::resolved(#[trigger] expressions[i]),
        model::resolved(model::ExprV::Not(Box::new(inner))) <==> model::resolved(inner),
        inner is Invalid ==> !model::resolved(inner),
        !(predicate.data is Relation) ==> (model::resolved(model::ExprV::Predicate(predicate))
            <==> predicate.data.is_resolved()),
        !(predicate.data is Relation) && predicate.data.scalar() is Some
            ==> predicate.data.is_resolved(),
        predicate.data matches model::DataV::Relation(_, nested) ==> (model::resolved(
            model::ExprV::Predicate(predicate),
        ) <==> model::resolved(*nested)),
{
    reveal_with_fuel(model::resolved, 2);
    reveal_with_fuel(model::all_resolved, 2);
}

/// A node is read from its members: the first of each name, and whether one of
/// them is unknown or repeated. An argument list is one of objects.
pub proof fn law_nodes_are_read_from_their_members(
    members: Seq<json::MemberV>,
    values: Seq<json::JsonV>,
    other: json::JsonV,
)
    requires
        !(other is Object),
        !(other is Array),
    ensures
        ({
            let node = wire_model::raw_node(members);
            let known = seq!["op"@, "args"@, "expr"@, "field"@, "value"@, "quantifier"@];
            let at = |name: Seq<char>| wire_model::position(members, name);
            &&& node.invalid_member <==> wire_model::has_invalid_member(members, known)
            &&& node.op is Some <==> at("op"@) < members.len()
            &&& node.op matches Some(op) ==> op == wire_model::wire_value(
                members[at("op"@)].value,
            )
            &&& node.field is Some <==> at("field"@) < members.len()
            &&& node.field matches Some(field) ==> field == wire_model::wire_value(
                members[at("field"@)].value,
            )
            &&& node.value is Some <==> at("value"@) < members.len()
            &&& node.value matches Some(value) ==> value == wire_model::wire_value(
                members[at("value"@)].value,
            )
            &&& node.quantifier is Some <==> at("quantifier"@) < members.len()
            &&& node.quantifier matches Some(quantifier) ==> quantifier == wire_model::wire_value(
                members[at("quantifier"@)].value,
            )
            &&& node.args is Some <==> at("args"@) < members.len()
            &&& node.args matches Some(args) ==> args == wire_model::raw_args(
                members[at("args"@)].value,
            )
            &&& node.expression is Some <==> at("expr"@) < members.len()
            &&& node.expression matches Some(expression) ==> expression
                == wire_model::raw_expression(members[at("expr"@)].value)
        }),
        wire_model::raw_expression(json::JsonV::Object(members)) == wire_model::RawExpressionV::Node(
            Box::new(wire_model::raw_node(members)),
        ),
        wire_model::raw_expression(other) is Other,
        wire_model::raw_args(other) is Other,
        wire_model::raw_args(json::JsonV::Array(values)) is Nodes <==> forall|i: int|
            0 <= i < values.len() ==> #[trigger] values[i] is Object,
{
    law_members_are_found_by_name(members, "op"@);
    law_members_are_found_by_name(members, "field"@);
    law_members_are_found_by_name(members, "value"@);
    law_members_are_found_by_name(members, "quantifier"@);
    law_members_are_found_by_name(members, "args"@);
    law_members_are_found_by_name(members, "expr"@);
    reveal_with_fuel(wire_model::raw_node, 2);
    reveal_with_fuel(wire_model::raw_expression, 2);
    reveal_with_fuel(wire_model::raw_args, 2);
    reveal_with_fuel(wire_model::member_args, 2);
    reveal_with_fuel(wire_model::member_expression, 2);
    assert(wire_model::node_names() =~= seq![
        "op"@,
        "args"@,
        "expr"@,
        "field"@,
        "value"@,
        "quantifier"@,
    ]);
}

/// The nodes of an argument list are read one by one, in their order.
pub proof fn law_arguments_are_read_in_order(values: Seq<json::JsonV>, index: int)
    requires
        0 <= index < values.len(),
        forall|i: int| 0 <= i < values.len() ==> #[trigger] values[i] is Object,
    ensures
        ({
            let read = wire_model::raw_args(json::JsonV::Array(values));
            &&& read is Nodes
            &&& read->Nodes_0.len() == values.len()
            &&& read->Nodes_0[index] == wire_model::raw_node(values[index]->Object_0)
        }),
{
    reveal_with_fuel(wire_model::raw_args, 2);
    reveal_with_fuel(wire_model::raw_nodes, 2);
}

/// A node is built by its operator: a conjunction or disjunction from what its
/// arguments are built as, with branches of its own kind opened, a negation
/// from what its expression is built as, and a relation from its field, its
/// quantifier and what its expression is built as.
pub proof fn law_nodes_are_built_by_their_operator(
    node: wire_model::RawNodeV,
    nodes: Seq<wire_model::RawNodeV>,
    inner: wire_model::RawNodeV,
    field: Seq<char>,
    quantifier: RelationQuantifier,
)
    ensures
        node.op == Some(wire_model::WireValueV::String("and"@)) && node.args == Some(
            wire_model::RawArgsV::Nodes(nodes),
        ) ==> wire_model::built(node) == Ok::<model::ExprV, FilterExpressionErrorKind>(
            model::ExprV::And(wire_model::flattened(true, wire_model::built_all(nodes))),
        ),
        node.op == Some(wire_model::WireValueV::String("or"@)) && node.args == Some(
            wire_model::RawArgsV::Nodes(nodes),
        ) ==> wire_model::built(node) == Ok::<model::ExprV, FilterExpressionErrorKind>(
            model::ExprV::Or(wire_model::flattened(false, wire_model::built_all(nodes))),
        ),
        node.op == Some(wire_model::WireValueV::String("not"@)) && node.expression == Some(
            wire_model::RawExpressionV::Node(Box::new(inner)),
        ) ==> {
            &&& wire_model::built(inner) matches Ok(expression) ==> wire_model::built(node) == Ok::<
                model::ExprV,
                FilterExpressionErrorKind,
            >(model::ExprV::Not(Box::new(expression)))
            &&& wire_model::built(inner) matches Err(reason) ==> wire_model::built(node) == Err::<
                model::ExprV,
                FilterExpressionErrorKind,
            >(reason)
        },
        node.op == Some(wire_model::WireValueV::String("relation"@)) && node.expression == Some(
            wire_model::RawExpressionV::Node(Box::new(inner)),
        ) && node.field == Some(wire_model::WireValueV::String(field)) && node.quantifier == Some(
            wire_model::WireValueV::String(quantifier.spelling()),
        ) && model::wire_name(field) ==> wire_model::built(node) == Ok::<
            model::ExprV,
            FilterExpressionErrorKind,
        >(
            model::ExprV::Predicate(
                model::PredicateV {
                    target: None,
                    field,
                    data: model::DataV::Relation(
                        quantifier,
                        Box::new(
                            match wire_model::built(inner) {
                                Ok(expression) => expression,
                                Err(reason) => model::ExprV::Invalid(reason),
                            },
                        ),
                    ),
                },
            ),
        ),
{
    reveal_strlit("and");
    reveal_strlit("or");
    reveal_strlit("not");
    reveal_strlit("relation");
    assert("and"@.len() == 3 && "or"@.len() == 2 && "not"@.len() == 3 && "relation"@.len() == 8);
    assert("and"@[0] != "not"@[0]);
    grammar::law_spellings_are_read_back(TextOperator::Eq, quantifier, SetOperator::Eq, field);
    reveal_with_fuel(wire_model::built, 2);
    reveal_with_fuel(wire_model::built_relation, 2);
}

/// What nodes are built as stands in their order, and one that cannot be built
/// stands for its reason.
pub proof fn law_built_branches_stand_in_order(nodes: Seq<wire_model::RawNodeV>, index: int)
    requires
        0 <= index < nodes.len(),
    ensures
        wire_model::built_all(nodes).len() == nodes.len(),
        wire_model::built(nodes[index]) matches Ok(expression) ==> wire_model::built_all(
            nodes,
        )[index] == expression,
        wire_model::built(nodes[index]) matches Err(reason) ==> wire_model::built_all(nodes)[index]
            == model::ExprV::Invalid(reason),
{
    reveal_with_fuel(wire_model::built_all, 2);
}

/// A document that keeps every rule is decoded: to what its expression is built
/// as once the target has checked and settled it. Otherwise the reason of the
/// building stands, then that of the checking, and what is not settled then is
/// misshapen.
pub proof fn law_well_formed_documents_are_decoded<T: Filterable>(
    target: Seq<char>,
    node: wire_model::RawNodeV,
)
    ensures
        ({
            let decoded = wire_model::decoded_node::<T>(target, node);
            let built = wire_model::built(node);
            let (reason, settled) = model::validated::<T>(built->Ok_0);
            let named = model::wire_name(target) && target == T::target_name();
            &&& !named ==> decoded == Err::<model::ExprV, FilterExpressionErrorKind>(
                FilterExpressionErrorKind::InvalidTarget,
            )
            &&& named && built is Err ==> decoded == Err::<model::ExprV, FilterExpressionErrorKind>(
                built->Err_0,
            )
            &&& named && built is Ok && reason is Some ==> decoded == Err::<
                model::ExprV,
                FilterExpressionErrorKind,
            >(reason->0)
            &&& named && built is Ok && reason is None && model::resolved(settled) ==> decoded
                == Ok::<model::ExprV, FilterExpressionErrorKind>(settled)
            &&& named && built is Ok && reason is None && !model::resolved(settled) ==> decoded
                == Err::<model::ExprV, FilterExpressionErrorKind>(
                FilterExpressionErrorKind::InvalidStructure,
            )
        }),
{
}

/// The document of an expression is its version, its target and what it is
/// written as once the target has checked and settled it. It is refused for its
/// targets, then for its fields, then for the reason of the check.
pub proof fn law_expressions_are_written_in_envelopes<T: Filterable>(expression: model::ExprV)
    ensures
        ({
            let document = wire_model::enveloped::<T>(expression);
            let (reason, settled) = model::validated::<T>(expression);
            let targeted = model::wire_name(T::target_name()) && model::wire_targets(
                expression,
                Some(T::target_name()),
            );
            let named = model::wire_fields(expression);
            let written = wire_model::encoded(settled);
            &&& !targeted ==> document is Err && document->Err_0 is InvalidTarget
            &&& targeted && !named ==> document is Err && document->Err_0 is UnknownField
            &&& targeted && named && reason is Some ==> document is Err && document->Err_0
                == reason->0
            &&& targeted && named && reason is None && !model::resolved(settled) ==> document is Err
                && document->Err_0 is InvalidStructure
            &&& targeted && named && reason is None && model::resolved(settled) && written is Err
                ==> document is Err && document->Err_0 == written->Err_0
            &&& targeted && named && reason is None && model::resolved(settled) && written is Ok
                ==> document == Ok::<json::JsonV, FilterExpressionErrorKind>(
                json::JsonV::Object(
                    seq![
                        json::MemberV {
                            name: "version"@,
                            value: json::JsonV::Number(json::Number::Unsigned(1)),
                        },
                        json::MemberV {
                            name: "target"@,
                            value: json::JsonV::String(T::target_name()),
                        },
                        json::MemberV { name: "expr"@, value: written->Ok_0 },
                    ],
                ),
            )
        }),
{
}

/// A node with a test's operator keeps its shape where it has a field and a
/// literal that fits and nothing else. One with an operator that is not known,
/// or orders, keeps it where it has the shape of any other node.
pub proof fn law_tests_keep_their_shape(node: wire_model::RawNodeV, operator: TextOperator)
    requires
        node.op == Some(wire_model::WireValueV::String(operator.spelling())),
        !node.invalid_member,
    ensures
        !operator.orders() ==> (wire_model::structured(node) <==> node.args is None
            && node.expression is None && node.quantifier is None && wire_model::is_string(
            node.field,
        ) && wire_model::scalar_shape(operator, node.value)),
        operator.orders() ==> (wire_model::structured(node) <==> wire_model::unknown_shape(node)),
        node.args is None && node.expression is None && node.quantifier is None
            ==> (wire_model::unknown_shape(node) <==> (wire_model::is_string(node.field)
            && node.value is Some && !(node.value->0 is Other))),
        node.args is Some && node.expression is None && node.field is None && node.value is None
            && node.quantifier is None ==> (wire_model::unknown_shape(node) <==> match node.args {
            Some(wire_model::RawArgsV::Nodes(nodes)) => nodes.len() >= 2 && forall|i: int|
                0 <= i < nodes.len() ==> wire_model::structured(#[trigger] nodes[i]),
            _ => false,
        }),
        node.args is None && node.value is None && node.expression is Some && (node.field is None
            && node.quantifier is None || wire_model::is_string(node.field)
            && wire_model::is_string(node.quantifier)) ==> (wire_model::unknown_shape(node)
            <==> match node.expression {
            Some(wire_model::RawExpressionV::Node(inner)) => wire_model::structured(*inner),
            _ => false,
        }),
{
    reveal_strlit("and");
    reveal_strlit("or");
    reveal_strlit("not");
    reveal_strlit("relation");
    reveal_strlit("eq");
    reveal_strlit("eq_ignore_case");
    reveal_strlit("contains");
    reveal_strlit("contains_ignore_case");
    reveal_strlit("starts_with");
    reveal_strlit("starts_with_ignore_case");
    reveal_strlit("ends_with");
    reveal_strlit("ends_with_ignore_case");
    reveal_strlit("in");
    reveal_strlit("not_in");
    reveal_strlit("regex");
    reveal_strlit("regex_ignore_case");
    reveal_strlit("lt");
    reveal_strlit("lte");
    reveal_strlit("gt");
    reveal_strlit("gte");
    let label = operator.spelling();
    assert("and"@.len() == 3 && "or"@.len() == 2 && "not"@.len() == 3 && "relation"@.len() == 8);
    assert("eq"@[0] == 'e' && "in"@[0] == 'i' && "lt"@[0] == 'l' && "gt"@[0] == 'g' && "lte"@[0]
        == 'l' && "gte"@[0] == 'g' && "contains"@[0] == 'c');
    assert("and"@[0] == 'a' && "or"@[0] == 'o' && "not"@[0] == 'n' && "relation"@[0] == 'r');
    assert(label != "and"@ && label != "or"@ && label != "not"@ && label != "relation"@);
    grammar::law_spellings_are_read_back(operator, RelationQuantifier::Any, SetOperator::Eq, label);
    reveal_with_fuel(wire_model::structured, 2);
    reveal_with_fuel(wire_model::unknown_shape, 2);
    reveal_with_fuel(wire_model::args_shape, 2);
    reveal_with_fuel(wire_model::all_structured, 2);
    reveal_with_fuel(wire_model::nested_shape, 2);
}

} // verus!
