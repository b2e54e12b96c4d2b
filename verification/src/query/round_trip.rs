//! What an envelope keeps of the expression that it was written from.

use vstd::prelude::*;

use crate::decimal;
use crate::json;
use crate::json::Number;
use crate::query::envelope;
use crate::query::error::FilterExpressionErrorKind;
use crate::query::expression;
use crate::query::fields;
use crate::query::filterable::Filterable;
use crate::query::grammar;
use crate::query::grammar::RelationQuantifier;
use crate::query::grammar::SetOperator;
use crate::query::grammar::TextOperator;
use crate::query::matching::FieldId;
use crate::query::model;
use crate::query::outside;
use crate::query::private::IntegerKind;
use crate::query::wire;
use crate::query::wire::WireVersion;
use crate::query::wire_model;

verus! {

/// A member is found where its name first occurs.
proof fn lemma_found(members: Seq<json::MemberV>, index: int)
    requires
        0 <= index < members.len(),
        forall|i: int| 0 <= i < index ==> (#[trigger] members[i]).name != members[index].name,
    ensures
        wire_model::position(members, members[index].name) == index,
    decreases members.len(),
{
    let head = members.drop_last();
    if index < head.len() {
        assert(head[index] == members[index]);
        assert forall|i: int| 0 <= i < index implies (#[trigger] head[i]).name
            != head[index].name by {
            assert(head[i] == members[i]);
        }
        lemma_found(head, index);
    } else {
        assert forall|i: int| 0 <= i < head.len() implies (#[trigger] head[i]).name
            != members[index].name by {
            assert(head[i] == members[i]);
        }
        lemma_absent(head, members[index].name);
    }
}

/// A name that does not occur is found behind the members.
proof fn lemma_absent(members: Seq<json::MemberV>, name: Seq<char>)
    requires
        forall|i: int| 0 <= i < members.len() ==> (#[trigger] members[i]).name != name,
    ensures
        wire_model::position(members, name) == members.len(),
    decreases members.len(),
{
    if members.len() > 0 {
        let head = members.drop_last();
        assert forall|i: int| 0 <= i < head.len() implies (#[trigger] head[i]).name != name by {
            assert(head[i] == members[i]);
        }
        lemma_absent(head, name);
    }
}

/// Members with distinct, known names are all accepted.
proof fn lemma_all_accepted(members: Seq<json::MemberV>, known: Seq<Seq<char>>)
    requires
        forall|i: int| 0 <= i < members.len() ==> known.contains((#[trigger] members[i]).name),
        forall|i: int, j: int|
            0 <= i < j < members.len() ==> (#[trigger] members[i]).name != (
            #[trigger] members[j]).name,
    ensures
        !wire_model::has_invalid_member(members, known),
{
    assert forall|i: int| 0 <= i < members.len() implies wire_model::accepted_member(
        #[trigger] members.take(i),
        members[i],
        known,
    ) by {
        let earlier = members.take(i);
        assert forall|j: int| 0 <= j < earlier.len() implies (#[trigger] earlier[j]).name
            != members[i].name by {
            assert(earlier[j] == members[j]);
        }
        lemma_absent(earlier, members[i].name);
    }
}

/// The operators of junctions, negations and relations are no scalar operators
/// and differ from each other.
proof fn lemma_connectives()
    ensures
        "and"@ != "or"@,
        "and"@ != "not"@,
        "and"@ != "relation"@,
        "or"@ != "not"@,
        "or"@ != "relation"@,
        "not"@ != "relation"@,
        forall|operator: TextOperator|
            (#[trigger] operator.spelling()) != "and"@ && operator.spelling() != "or"@
                && operator.spelling() != "not"@ && operator.spelling() != "relation"@,
{
    reveal_strlit("and");
    reveal_strlit("or");
    reveal_strlit("not");
    reveal_strlit("relation");
    assert("and"@.len() == 3 && "or"@.len() == 2 && "not"@.len() == 3 && "relation"@.len() == 8);
    assert("and"@[0] != "not"@[0]);
    assert forall|operator: TextOperator|
        (#[trigger] operator.spelling()) != "and"@ && operator.spelling() != "or"@
            && operator.spelling() != "not"@ && operator.spelling() != "relation"@ by {
        lemma_no_connective(operator);
    }
}

/// No scalar operator is spelled like a connective.
proof fn lemma_no_connective(operator: TextOperator)
    ensures
        operator.spelling() != "and"@,
        operator.spelling() != "or"@,
        operator.spelling() != "not"@,
        operator.spelling() != "relation"@,
{
    reveal_strlit("and");
    reveal_strlit("or");
    reveal_strlit("not");
    reveal_strlit("relation");
    let spelling = operator.spelling();
    assert("and"@.len() == 3 && "or"@.len() == 2 && "not"@.len() == 3 && "relation"@.len() == 8);
    assert("and"@[0] == 'a' && "or"@[0] == 'o' && "not"@[0] == 'n' && "relation"@[0] == 'r');
    reveal_strlit("eq");
    reveal_strlit("eq_ignore_case");
    reveal_strlit("contains");
    reveal_strlit("contains_ignore_case");
    reveal_strlit("starts_with");
    reveal_strlit("starts_with_ignore_case");
    reveal_strlit("ends_with");
    reveal_strlit("ends_with_ignore_case");
    reveal_strlit("in");
    reveal_strlit("not_in");
    reveal_strlit("regex");
    reveal_strlit("regex_ignore_case");
    reveal_strlit("lt");
    reveal_strlit("lte");
    reveal_strlit("gt");
    reveal_strlit("gte");
    assert("eq"@.len() == 2 && "eq"@[0] == 'e');
    assert("eq_ignore_case"@.len() == 14 && "eq_ignore_case"@[0] == 'e');
    assert("contains"@.len() == 8 && "contains"@[0] == 'c');
    assert("contains_ignore_case"@.len() == 20 && "contains_ignore_case"@[0] == 'c');
    assert("starts_with"@.len() == 11 && "starts_with"@[0] == 's');
    assert("starts_with_ignore_case"@.len() == 23 && "starts_with_ignore_case"@[0] == 's');
    assert("ends_with"@.len() == 9 && "ends_with"@[0] == 'e');
    assert("ends_with_ignore_case"@.len() == 21 && "ends_with_ignore_case"@[0] == 'e');
    assert("in"@.len() == 2 && "in"@[0] == 'i');
    assert("not_in"@.len() == 6 && "not_in"@[0] == 'n');
    assert("regex"@.len() == 5 && "regex"@[0] == 'r');
    assert("regex_ignore_case"@.len() == 17 && "regex_ignore_case"@[0] == 'r');
    assert("lt"@.len() == 2 && "lt"@[0] == 'l');
    assert("lte"@.len() == 3 && "lte"@[0] == 'l');
    assert("gt"@.len() == 2 && "gt"@[0] == 'g');
    assert("gte"@.len() == 3 && "gte"@[0] == 'g');
    assert(spelling.len() == 3 ==> spelling[0] == 'l' || spelling[0] == 'g');
    assert(spelling.len() == 2 ==> spelling[0] != 'o');
    assert(spelling.len() == 8 ==> spelling[0] != 'r');
}

/// A spelling reads as the operator that it spells.
proof fn lemma_spelled(operator: TextOperator)
    ensures
        TextOperator::spelled(operator.spelling()) == Some(operator),
{
    let spelled = TextOperator::spelled(operator.spelling())->0;
    assert(spelled.spelling() == operator.spelling());
    grammar::law_text_spellings_are_distinct(spelled, operator);
}

/// A quantifier's spelling reads as the quantifier.
proof fn lemma_quantifier_spelled(quantifier: RelationQuantifier)
    ensures
        RelationQuantifier::spelled(quantifier.spelling()) == Some(quantifier),
{
    let spelled = RelationQuantifier::spelled(quantifier.spelling())->0;
    assert(spelled.spelling() == quantifier.spelling());
    grammar::law_quantifier_spellings_are_distinct(spelled, quantifier);
}

/// How the members of a junction are read.
proof fn lemma_junction_node(operator: json::JsonV, args: json::JsonV)
    ensures
        wire_model::raw_node(
            seq![
                wire_model::named("op"@, operator),
                wire_model::named("args"@, args),
            ],
        ) == (wire_model::RawNodeV {
            invalid_member: false,
            op: Some(wire_model::wire_value(operator)),
            args: Some(wire_model::raw_args(args)),
            expression: None,
            field: None,
            value: None,
            quantifier: None,
        }),
{
    let members = seq![
        wire_model::named("op"@, operator),
        wire_model::named("args"@, args),
    ];
    wire::lemma_node_names();
    assert(members[0].name == "op"@);
    assert(members[1].name == "args"@);
    lemma_found(members, 0);
    lemma_found(members, 1);
    lemma_absent(members, "expr"@);
    lemma_absent(members, "field"@);
    lemma_absent(members, "value"@);
    lemma_absent(members, "quantifier"@);
    lemma_all_accepted(members, wire_model::node_names());
}

/// How the members of a negation are read.
proof fn lemma_negation_node(operator: json::JsonV, nested: json::JsonV)
    ensures
        wire_model::raw_node(
            seq![
                wire_model::named("op"@, operator),
                wire_model::named("expr"@, nested),
            ],
        ) == (wire_model::RawNodeV {
            invalid_member: false,
            op: Some(wire_model::wire_value(operator)),
            args: None,
            expression: Some(wire_model::raw_expression(nested)),
            field: None,
            value: None,
            quantifier: None,
        }),
{
    let members = seq![
        wire_model::named("op"@, operator),
        wire_model::named("expr"@, nested),
    ];
    wire::lemma_node_names();
    assert(members[0].name == "op"@);
    assert(members[1].name == "expr"@);
    lemma_found(members, 0);
    lemma_found(members, 1);
    lemma_absent(members, "args"@);
    lemma_absent(members, "field"@);
    lemma_absent(members, "value"@);
    lemma_absent(members, "quantifier"@);
    lemma_all_accepted(members, wire_model::node_names());
}

/// How the members of a relation are read.
proof fn lemma_relation_node(
    operator: json::JsonV,
    field: json::JsonV,
    quantifier: json::JsonV,
    nested: json::JsonV,
)
    ensures
        wire_model::raw_node(
            seq![
                wire_model::named("op"@, operator),
                wire_model::named("field"@, field),
                wire_model::named("quantifier"@, quantifier),
                wire_model::named("expr"@, nested),
            ],
        ) == (wire_model::RawNodeV {
            invalid_member: false,
            op: Some(wire_model::wire_value(operator)),
            args: None,
            expression: Some(wire_model::raw_expression(nested)),
            field: Some(wire_model::wire_value(field)),
            value: None,
            quantifier: Some(wire_model::wire_value(quantifier)),
        }),
{
    let members = seq![
        wire_model::named("op"@, operator),
        wire_model::named("field"@, field),
        wire_model::named("quantifier"@, quantifier),
        wire_model::named("expr"@, nested),
    ];
    wire::lemma_node_names();
    assert(members[0].name == "op"@);
    assert(members[1].name == "field"@);
    assert(members[2].name == "quantifier"@);
    assert(members[3].name == "expr"@);
    lemma_found(members, 0);
    lemma_found(members, 1);
    lemma_found(members, 2);
    lemma_found(members, 3);
    lemma_absent(members, "args"@);
    lemma_absent(members, "value"@);
    lemma_all_accepted(members, wire_model::node_names());
}

/// How the members of a scalar test are read.
proof fn lemma_scalar_node(operator: json::JsonV, field: json::JsonV, value: json::JsonV)
    ensures
        wire_model::raw_node(
            seq![
                wire_model::named("op"@, operator),
                wire_model::named("field"@, field),
                wire_model::named("value"@, value),
            ],
        ) == (wire_model::RawNodeV {
            invalid_member: false,
            op: Some(wire_model::wire_value(operator)),
            args: None,
            expression: None,
            field: Some(wire_model::wire_value(field)),
            value: Some(wire_model::wire_value(value)),
            quantifier: None,
        }),
{
    let members = seq![
        wire_model::named("op"@, operator),
        wire_model::named("field"@, field),
        wire_model::named("value"@, value),
    ];
    wire::lemma_node_names();
    assert(members[0].name == "op"@);
    assert(members[1].name == "field"@);
    assert(members[2].name == "value"@);
    lemma_found(members, 0);
    lemma_found(members, 1);
    lemma_found(members, 2);
    lemma_absent(members, "args"@);
    lemma_absent(members, "expr"@);
    lemma_absent(members, "quantifier"@);
    lemma_all_accepted(members, wire_model::node_names());
}

/// Whether a document reads back as the wire form of an expression.
pub open spec fn reads_back(document: json::JsonV, expression: model::ExprV) -> bool {
    match document {
        json::JsonV::Object(members) => wire_model::structured(wire_model::raw_node(members))
            && wire_model::built(wire_model::raw_node(members)) == Ok::<
            model::ExprV,
            FilterExpressionErrorKind,
        >(wire_model::wire_form(expression)),
        _ => false,
    }
}

/// A sound expression can be written, and its document reads back as its wire
/// form.
pub proof fn lemma_reads_back(expression: model::ExprV)
    requires
        wire_model::sound(expression),
    ensures
        wire_model::encoded(expression) is Ok,
        reads_back(wire_model::encoded(expression)->Ok_0, expression),
    decreases expression, 1int,
{
    lemma_connectives();
    match expression {
        model::ExprV::And(branches) => {
            lemma_branches_read_back(branches);
            lemma_junction_reads_back(branches, true);
        },
        model::ExprV::Or(branches) => {
            lemma_branches_read_back(branches);
            lemma_junction_reads_back(branches, false);
        },
        model::ExprV::Not(inner) => {
            lemma_reads_back(*inner);
            lemma_negation_node(
                json::JsonV::String("not"@),
                wire_model::encoded(*inner)->Ok_0,
            );
        },
        model::ExprV::Predicate(predicate) => match predicate.data {
            model::DataV::Relation(quantifier, inner) => {
                lemma_reads_back(*inner);
                lemma_quantifier_spelled(quantifier);
                lemma_relation_node(
                    json::JsonV::String("relation"@),
                    json::JsonV::String(predicate.field),
                    json::JsonV::String(quantifier.spelling()),
                    wire_model::encoded(*inner)->Ok_0,
                );
                let members = wire_model::encoded(expression)->Ok_0->Object_0;
                let node = wire_model::raw_node(members);
                assert(wire_model::built(node) == wire_model::built_relation(node));
                assert(wire_model::nested_shape(node.expression));
                assert(wire_model::wire_test(predicate.data) == model::DataV::Relation(
                    quantifier,
                    Box::new(wire_model::wire_form(*inner)),
                ));
            },
            data => {
                reveal_with_fuel(wire_model::structured, 2);
                let scalar = data.scalar()->0;
                let operator = TextOperator::spelled(data.operator_spelling())->0;
                let value = wire_model::scalar_value(scalar)->Ok_0;
                assert(operator.spelling() == data.operator_spelling());
                lemma_scalar_node(
                    json::JsonV::String(data.operator_spelling()),
                    json::JsonV::String(predicate.field),
                    value,
                );
            },
        },
        model::ExprV::Invalid(_) => {},
    }
}

/// Every branch of a junction of sound expressions can be written and reads
/// back.
proof fn lemma_branches_read_back(branches: Seq<model::ExprV>)
    requires
        wire_model::all_sound(branches),
    ensures
        wire_model::encoded_all(branches) is Ok,
        wire_model::encoded_all(branches)->Ok_0.len() == branches.len(),
        forall|i: int|
            0 <= i < branches.len() ==> reads_back(
                #[trigger] wire_model::encoded_all(branches)->Ok_0[i],
                branches[i],
            ),
    decreases branches, 0int,
{
    if branches.len() > 0 {
        let head = branches.drop_last();
        let last = branches[branches.len() - 1];
        assert forall|i: int| 0 <= i < head.len() implies wire_model::sound(
            #[trigger] head[i],
        ) by {
            assert(head[i] == branches[i]);
        }
        lemma_branches_read_back(head);
        lemma_reads_back(last);
        let earlier = wire_model::encoded_all(head)->Ok_0;
        let documents = wire_model::encoded_all(branches)->Ok_0;
        assert(documents == earlier.push(wire_model::encoded(last)->Ok_0));
        assert forall|i: int| 0 <= i < branches.len() implies reads_back(
            #[trigger] documents[i],
            branches[i],
        ) by {
            if i < head.len() {
                assert(documents[i] == earlier[i]);
                assert(head[i] == branches[i]);
            }
        }
    }
}

/// Branches that contribute themselves are kept as they are.
proof fn lemma_nothing_to_flatten(conjunction: bool, expressions: Seq<model::ExprV>)
    requires
        forall|i: int|
            0 <= i < expressions.len() ==> if conjunction {
                !(#[trigger] expressions[i] is And)
            } else {
                !(expressions[i] is Or)
            },
    ensures
        wire_model::flattened(conjunction, expressions) == expressions,
    decreases expressions.len(),
{
    if expressions.len() > 0 {
        let head = expressions.drop_last();
        assert forall|i: int| 0 <= i < head.len() implies if conjunction {
            !(#[trigger] head[i] is And)
        } else {
            !(head[i] is Or)
        } by {
            assert(head[i] == expressions[i]);
        }
        lemma_nothing_to_flatten(conjunction, head);
        let last = expressions[expressions.len() - 1];
        assert(last == expressions.last());
        assert(head + seq![last] =~= expressions);
    } else {
        assert(expressions =~= Seq::empty());
    }
}

/// A junction whose branches read back reads back.
proof fn lemma_junction_reads_back(branches: Seq<model::ExprV>, conjunction: bool)
    requires
        branches.len() >= 2,
        forall|i: int|
            0 <= i < branches.len() ==> if conjunction {
                !(#[trigger] branches[i] is And)
            } else {
                !(branches[i] is Or)
            },
        wire_model::encoded_all(branches) is Ok,
        wire_model::encoded_all(branches)->Ok_0.len() == branches.len(),
        forall|i: int|
            0 <= i < branches.len() ==> reads_back(
                #[trigger] wire_model::encoded_all(branches)->Ok_0[i],
                branches[i],
            ),
    ensures
        ({
            let expression = if conjunction {
                model::ExprV::And(branches)
            } else {
                model::ExprV::Or(branches)
            };
            wire_model::encoded(expression) is Ok && reads_back(
                wire_model::encoded(expression)->Ok_0,
                expression,
            )
        }),
{
    let operator = if conjunction {
        "and"@
    } else {
        "or"@
    };
    let documents = wire_model::encoded_all(branches)->Ok_0;
    lemma_connectives();
    lemma_junction_node(json::JsonV::String(operator), json::JsonV::Array(documents));
    assert forall|i: int| 0 <= i < documents.len() implies #[trigger] documents[i] is Object by {
        assert(reads_back(documents[i], branches[i]));
    }
    let nodes = wire_model::raw_nodes(documents);
    assert forall|i: int| 0 <= i < nodes.len() implies wire_model::structured(
        #[trigger] nodes[i],
    ) && wire_model::built(nodes[i]) == Ok::<model::ExprV, FilterExpressionErrorKind>(
        wire_model::wire_form(branches[i]),
    ) by {
        assert(reads_back(documents[i], branches[i]));
        assert(nodes[i] == wire_model::raw_node(documents[i]->Object_0));
    }
    assert(wire_model::all_structured(nodes));
    let built = wire_model::built_all(nodes);
    assert(built =~= wire_model::wire_forms(branches));
    lemma_nothing_to_flatten(conjunction, built);
}

/// What a list of documents of strings reads as.
proof fn lemma_strings_read_back(values: Seq<Seq<char>>)
    ensures
        wire_model::wire_value(
            json::JsonV::Array(values.map_values(|value: Seq<char>| json::JsonV::String(value))),
        ) == if values.len() == 0 {
            wire_model::WireValueV::Empty
        } else {
            wire_model::WireValueV::Strings(values)
        },
{
    let documents = values.map_values(|value: Seq<char>| json::JsonV::String(value));
    if values.len() > 0 {
        assert(documents.map_values(|value: json::JsonV| value->String_0) =~= values);
    }
}

/// What a list of documents of booleans reads as.
proof fn lemma_bools_read_back(values: Seq<bool>)
    ensures
        wire_model::wire_value(
            json::JsonV::Array(values.map_values(|value: bool| json::JsonV::Bool(value))),
        ) == if values.len() == 0 {
            wire_model::WireValueV::Empty
        } else {
            wire_model::WireValueV::Bools(values)
        },
{
    let documents = values.map_values(|value: bool| json::JsonV::Bool(value));
    if values.len() > 0 {
        assert(documents[0] is Bool);
        assert(documents.map_values(|value: json::JsonV| value->Bool_0) =~= values);
    }
}

/// A text test settles on the same test again.
pub proof fn lemma_text_settles_again(data: model::DataV)
    requires
        model::validated_text(data).0 is None,
        wire_model::faithful(data),
    ensures
        wire_model::settles_again(
            data,
            model::validated_text(data).1,
            model::validated_text(wire_model::wire_test(model::validated_text(data).1)),
        ),
{
    let settled = model::validated_text(data).1;
    match settled.scalar() {
        Some(model::ScalarV::Text(test)) => {
            lemma_spelled(test.operator);
            assert(settled.operator_spelling() == test.operator.spelling());
            lemma_strings_read_back(test.values);
            if test.values.len() == 1 {
                assert(test.values =~= seq![test.values[0]]);
            }
            if test.values.len() == 0 {
                assert(test.values =~= Seq::empty());
            }
        },
        _ => {},
    }
}

/// A boolean test settles on the same test again.
pub proof fn lemma_bool_settles_again(data: model::DataV)
    requires
        model::validated_bool(data).0 is None,
        wire_model::faithful(data),
    ensures
        wire_model::settles_again(
            data,
            model::validated_bool(data).1,
            model::validated_bool(wire_model::wire_test(model::validated_bool(data).1)),
        ),
{
    let settled = model::validated_bool(data).1;
    match settled.scalar() {
        Some(model::ScalarV::Bool(set)) => {
            let operator = TextOperator::of_set(set.operator)->0;
            lemma_spelled(operator);
            assert(settled.operator_spelling() == operator.spelling());
            lemma_bools_read_back(set.values);
            if set.values.len() == 1 {
                assert(set.values =~= seq![set.values[0]]);
            }
            if set.values.len() == 0 {
                assert(set.values =~= Seq::empty());
            }
        },
        _ => {},
    }
}

/// An enum test settles on the same test again.
pub proof fn lemma_enum_settles_again(data: model::DataV, variants: Seq<Seq<char>>)
    requires
        model::validated_enum(data, variants).0 is None,
        wire_model::faithful(data),
    ensures
        wire_model::settles_again(
            data,
            model::validated_enum(data, variants).1,
            model::validated_enum(
                wire_model::wire_test(model::validated_enum(data, variants).1),
                variants,
            ),
        ),
{
    let settled = model::validated_enum(data, variants).1;
    match settled.scalar() {
        Some(model::ScalarV::Enum(set)) => {
            let operator = TextOperator::of_set(set.operator)->0;
            lemma_spelled(operator);
            assert(settled.operator_spelling() == operator.spelling());
            lemma_strings_read_back(set.values);
            if set.values.len() == 1 {
                assert(set.values =~= seq![set.values[0]]);
            }
            if set.values.len() == 0 {
                assert(set.values =~= Seq::empty());
            }
        },
        _ => {},
    }
}

/// A canonical notation denotes the number that it notes.
proof fn lemma_notation(number: int, minimum: int, maximum: int)
    requires
        minimum <= number <= maximum,
    ensures
        model::literal_in_range(decimal::signed_decimal(number), minimum, maximum),
        model::literal_value(decimal::signed_decimal(number)) == number,
{
    let text = decimal::signed_decimal(number);
    let value = model::literal_value(text);
    assert(text == decimal::signed_decimal(value));
    decimal::law_signed_notation_round_trips(number, value);
}

/// The numbers that literals in range denote are in range, and noting them
/// gives the literals back.
proof fn lemma_literals(texts: Seq<Seq<char>>, minimum: int, maximum: int)
    requires
        model::literals_in_range(texts, minimum, maximum),
    ensures
        forall|i: int|
            0 <= i < texts.len() ==> minimum <= model::literal_value(#[trigger] texts[i])
                <= maximum && decimal::signed_decimal(model::literal_value(texts[i])) == texts[i],
{
    assert forall|i: int| 0 <= i < texts.len() implies minimum <= model::literal_value(
        #[trigger] texts[i],
    ) <= maximum && decimal::signed_decimal(model::literal_value(texts[i])) == texts[i] by {
        assert(model::literal_in_range(texts[i], minimum, maximum));
        let number = choose|number: int|
            minimum <= number <= maximum && texts[i] == #[trigger] decimal::signed_decimal(number);
        lemma_notation(number, minimum, maximum);
    }
}

/// An integer test settles on the same test again.
pub proof fn lemma_integer_settles_again(data: model::DataV, kind: IntegerKind)
    requires
        model::validated_integer(data, kind).0 is None,
        wire_model::faithful(data),
    ensures
        wire_model::settles_again(
            data,
            model::validated_integer(data, kind).1,
            model::validated_integer(
                wire_model::wire_test(model::validated_integer(data, kind).1),
                kind,
            ),
        ),
{
    let settled = model::validated_integer(data, kind).1;
    let (minimum, maximum) = kind.range();
    if let model::DataV::WireString { values, .. } = data {
        lemma_literals(values, minimum, maximum);
    }
    match settled.scalar() {
        Some(model::ScalarV::Signed(set)) => {
            assert forall|i: int| 0 <= i < set.values.len() implies minimum
                <= #[trigger] set.values[i] <= maximum by {
                if let model::DataV::WireString { values, .. } = data {
                    assert(set.values[i] == model::literal_value(values[i]) as i128);
                }
            }
            let texts = Seq::new(
                set.values.len(),
                |i: int| decimal::signed_decimal(set.values[i] as int),
            );
            lemma_integers_read_back(settled, set.operator, texts);
            assert(set.values.map_values(
                |value: i128| json::JsonV::String(decimal::signed_decimal(value as int)),
            ) =~= texts.map_values(|value: Seq<char>| json::JsonV::String(value)));
            assert forall|i: int| 0 <= i < texts.len() implies model::literal_in_range(
                #[trigger] texts[i],
                minimum,
                maximum,
            ) && model::literal_value(texts[i]) == set.values[i] by {
                lemma_notation(set.values[i] as int, minimum, maximum);
            }
            assert(texts.map_values(|text: Seq<char>| model::literal_value(text) as i128)
                =~= set.values);
            if set.values.len() == 0 {
                assert(set.values =~= Seq::empty());
            }
        },
        Some(model::ScalarV::Unsigned(set)) => {
            assert forall|i: int| 0 <= i < set.values.len() implies minimum
                <= #[trigger] set.values[i] <= maximum by {
                if let model::DataV::WireString { values, .. } = data {
                    assert(set.values[i] == model::literal_value(values[i]) as u128);
                }
            }
            let texts = Seq::new(
                set.values.len(),
                |i: int| decimal::signed_decimal(set.values[i] as int),
            );
            lemma_integers_read_back(settled, set.operator, texts);
            assert(set.values.map_values(
                |value: u128| json::JsonV::String(decimal::signed_decimal(value as int)),
            ) =~= texts.map_values(|value: Seq<char>| json::JsonV::String(value)));
            assert forall|i: int| 0 <= i < texts.len() implies model::literal_in_range(
                #[trigger] texts[i],
                minimum,
                maximum,
            ) && model::literal_value(texts[i]) == set.values[i] by {
                lemma_notation(set.values[i] as int, minimum, maximum);
            }
            assert(texts.map_values(|text: Seq<char>| model::literal_value(text) as u128)
                =~= set.values);
            if set.values.len() == 0 {
                assert(set.values =~= Seq::empty());
            }
        },
        _ => {},
    }
}

/// How the texts of an integer test read, and which operator they stand
/// beside.
proof fn lemma_integers_read_back(
    settled: model::DataV,
    operator: SetOperator,
    texts: Seq<Seq<char>>,
)
    requires
        settled.operator_spelling() == operator.spelling(),
    ensures
        TextOperator::spelled(settled.operator_spelling()) is Some,
        TextOperator::spelled(settled.operator_spelling())->0.as_set() == Some(operator),
        wire_model::wire_value(
            json::JsonV::Array(texts.map_values(|value: Seq<char>| json::JsonV::String(value))),
        ) == if texts.len() == 0 {
            wire_model::WireValueV::Empty
        } else {
            wire_model::WireValueV::Strings(texts)
        },
        texts.len() == 1 ==> texts == seq![texts[0]],
{
    let text_operator = match operator {
        SetOperator::Eq => TextOperator::Eq,
        SetOperator::In => TextOperator::In,
        SetOperator::NotIn => TextOperator::NotIn,
        SetOperator::Lt => TextOperator::Lt,
        SetOperator::Lte => TextOperator::Lte,
        SetOperator::Gt => TextOperator::Gt,
        SetOperator::Gte => TextOperator::Gte,
    };
    lemma_spelled(text_operator);
    lemma_strings_read_back(texts);
    if texts.len() == 1 {
        assert(texts =~= seq![texts[0]]);
    }
}

/// No reason stands exactly where every answer is free of one.
proof fn lemma_first_reason(reasons: Seq<Option<FilterExpressionErrorKind>>)
    ensures
        model::first_reason(reasons) is None <==> forall|i: int|
            0 <= i < reasons.len() ==> #[trigger] reasons[i] is None,
    decreases reasons.len(),
{
    if reasons.len() > 0 && reasons[0] is None {
        let rest = reasons.skip(1);
        lemma_first_reason(rest);
        assert forall|i: int| 0 <= i < rest.len() implies #[trigger] rest[i] == reasons[i + 1] by {}
        if forall|i: int| 0 <= i < rest.len() ==> #[trigger] rest[i] is None {
            assert forall|i: int| 0 <= i < reasons.len() implies #[trigger] reasons[i] is None by {
                if i > 0 {
                    assert(rest[i - 1] == reasons[i]);
                }
            }
        } else {
            let i = choose|i: int| 0 <= i < rest.len() && !(#[trigger] rest[i] is None);
            assert(reasons[i + 1] is Some);
        }
    }
}

/// Whether an expression settles on the same meaning again once it is written
/// and read back.
pub open spec fn keeps_its_meaning<T: Filterable>(settled: model::ExprV) -> bool {
    let (reason, again) = model::validated::<T>(wire_model::wire_form(settled));
    reason is None && model::same_expression(settled, again) && model::resolved(again)
}

/// A well-formed expression that a target accepts settles on a well-formed,
/// sound one, and on the same one again once that is written and read back.
pub proof fn lemma_expression_settles_again<T: Filterable>(expression: model::ExprV)
    requires
        wire_model::well_formed(expression),
        model::validated::<T>(expression).0 is None,
    ensures
        wire_model::well_formed(model::validated::<T>(expression).1),
        wire_model::sound(model::validated::<T>(expression).1),
        keeps_its_meaning::<T>(model::validated::<T>(expression).1),
    decreases expression,
{
    let settled = model::validated::<T>(expression).1;
    match expression {
        model::ExprV::Predicate(predicate) => {
            T::lemma_settles_again(predicate.field, predicate.data);
            let data = T::checked(predicate.field, predicate.data).1;
            assert(wire_model::wire_form(settled) == model::ExprV::Predicate(
                model::PredicateV {
                    target: None,
                    field: predicate.field,
                    data: wire_model::wire_test(data),
                },
            ));
            let again = T::checked(predicate.field, wire_model::wire_test(data)).1;
            assert(model::validated::<T>(wire_model::wire_form(settled)).1
                == model::ExprV::Predicate(
                model::PredicateV {
                    target: Some(T::target_name()),
                    field: predicate.field,
                    data: again,
                },
            ));
            assert(model::same_data(data, again));
            let back = model::validated::<T>(wire_model::wire_form(settled)).1;
            assert(model::same_predicate(settled->Predicate_0, back->Predicate_0));
            assert(model::resolved(back));
        },
        model::ExprV::And(branches) => {
            lemma_branches_settle_again::<T>(branches);
            assert(keeps_its_meaning::<T>(settled));
        },
        model::ExprV::Or(branches) => {
            lemma_branches_settle_again::<T>(branches);
            assert(keeps_its_meaning::<T>(settled));
        },
        model::ExprV::Not(inner) => {
            lemma_expression_settles_again::<T>(*inner);
            assert(keeps_its_meaning::<T>(settled));
        },
        model::ExprV::Invalid(_) => {},
    }
}

/// The branches of a junction settle again like expressions on their own.
proof fn lemma_branches_settle_again<T: Filterable>(branches: Seq<model::ExprV>)
    requires
        wire_model::all_well_formed(branches),
        model::first_reason(model::reasons(model::validated_branches::<T>(branches))) is None,
    ensures
        ({
            let settled = model::values(model::validated_branches::<T>(branches));
            let outcomes = model::validated_branches::<T>(wire_model::wire_forms(settled));
            &&& settled.len() == branches.len()
            &&& forall|i: int|
                0 <= i < branches.len() ==> ((#[trigger] settled[i] is And) == (branches[i] is And))
                    && ((settled[i] is Or) == (branches[i] is Or))
            &&& wire_model::all_well_formed(settled)
            &&& wire_model::all_sound(settled)
            &&& model::first_reason(model::reasons(outcomes)) is None
            &&& model::same_branches(settled, model::values(outcomes))
            &&& model::all_resolved(model::values(outcomes))
        }),
    decreases branches,
{
    let outcomes = model::validated_branches::<T>(branches);
    let settled = model::values(outcomes);
    let forms = wire_model::wire_forms(settled);
    let again = model::validated_branches::<T>(forms);
    lemma_first_reason(model::reasons(outcomes));
    assert forall|i: int| 0 <= i < branches.len() implies {
        &&& #[trigger] settled[i] == model::validated::<T>(branches[i]).1
        &&& wire_model::well_formed(settled[i])
        &&& wire_model::sound(settled[i])
        &&& keeps_its_meaning::<T>(settled[i])
    } by {
        assert(model::reasons(outcomes)[i] is None);
        assert(outcomes[i] == model::validated::<T>(branches[i]));
        lemma_expression_settles_again::<T>(branches[i]);
    }
    assert forall|i: int| 0 <= i < branches.len() implies {
        &&& #[trigger] again[i] == model::validated::<T>(wire_model::wire_form(settled[i]))
        &&& keeps_its_meaning::<T>(settled[i])
    } by {
        assert(forms[i] == wire_model::wire_form(settled[i]));
        assert(wire_model::sound(settled[i]));
    }
    assert forall|i: int| 0 <= i < again.len() implies #[trigger] model::reasons(again)[i]
        is None by {
        assert(again[i].0 is None);
    }
    lemma_first_reason(model::reasons(again));
    assert forall|i: int| 0 <= i < settled.len() implies model::same_expression(
        #[trigger] settled[i],
        model::values(again)[i],
    ) && model::resolved(model::values(again)[i]) by {
        assert(again[i] == model::validated::<T>(wire_model::wire_form(settled[i])));
    }
    assert forall|i: int| 0 <= i < settled.len() implies model::resolved(
        #[trigger] model::values(again)[i],
    ) by {
        assert(model::same_expression(settled[i], model::values(again)[i]));
    }
    assert forall|i: int| 0 <= i < branches.len() implies ((#[trigger] settled[i] is And) == (
    branches[i] is And)) && ((settled[i] is Or) == (branches[i] is Or)) by {
        assert(settled[i] == model::validated::<T>(branches[i]).1);
    }
}

/// A to-many relation that is accepted settles on the same one again.
pub proof fn lemma_many_settles_again<T: Filterable>(data: model::DataV)
    requires
        model::validated_many::<T>(data).0 is None,
        data matches model::DataV::Relation(_, inner) ==> wire_model::well_formed(*inner),
    ensures
        wire_model::settles_again(
            data,
            model::validated_many::<T>(data).1,
            model::validated_many::<T>(
                wire_model::wire_test(model::validated_many::<T>(data).1),
            ),
        ),
{
    if let model::DataV::Relation(quantifier, inner) = data {
        lemma_expression_settles_again::<T>(*inner);
        let settled = model::validated::<T>(*inner).1;
        assert(wire_model::wire_test(model::validated_many::<T>(data).1)
            == model::DataV::Relation(quantifier, Box::new(wire_model::wire_form(settled))));
    }
}

/// A to-one relation that is accepted settles on the same one again.
pub proof fn lemma_one_settles_again<T: Filterable>(data: model::DataV)
    requires
        model::validated_one::<T>(data).0 is None,
        data matches model::DataV::Relation(_, inner) ==> wire_model::well_formed(*inner),
    ensures
        wire_model::settles_again(
            data,
            model::validated_one::<T>(data).1,
            model::validated_one::<T>(wire_model::wire_test(model::validated_one::<T>(data).1)),
        ),
{
    if let model::DataV::Relation(quantifier, inner) = data {
        lemma_expression_settles_again::<T>(*inner);
        let settled = model::validated::<T>(*inner).1;
        assert(wire_model::wire_test(model::validated_one::<T>(data).1)
            == model::DataV::Relation(quantifier, Box::new(wire_model::wire_form(settled))));
    }
}

/// A well-formed expression whose targets and fields' names can travel, and
/// which its target accepts, can be written.
pub proof fn law_accepted_expressions_can_be_written<T: Filterable>(expression: model::ExprV)
    requires
        wire_model::well_formed(expression),
        model::wire_name(T::target_name()),
        model::wire_targets(expression, Some(T::target_name())),
        model::wire_fields(expression),
        model::validated::<T>(expression).0 is None,
        model::resolved(model::validated::<T>(expression).1),
    ensures
        wire_model::enveloped::<T>(expression) is Ok,
{
    lemma_expression_settles_again::<T>(expression);
    lemma_reads_back(model::validated::<T>(expression).1);
}

/// Reading an envelope back gives the expression that it was written from:
/// the settled expression and the one that is read are one expression, as
/// long as the envelope keeps the complexity limits.
pub proof fn law_decoding_undoes_encoding<T: Filterable>(
    expression: model::ExprV,
    document: json::JsonV,
)
    requires
        wire_model::well_formed(expression),
        wire_model::enveloped::<T>(expression) == Ok::<json::JsonV, FilterExpressionErrorKind>(
            document,
        ),
        wire_model::envelope_within_limits(document),
    ensures
        wire_model::decoded::<T>(document) is Ok,
        model::same_expression(
            model::validated::<T>(expression).1,
            wire_model::decoded::<T>(document)->Ok_0,
        ),
{
    let settled = model::validated::<T>(expression).1;
    lemma_expression_settles_again::<T>(expression);
    lemma_reads_back(settled);
    let nested = wire_model::encoded(settled)->Ok_0;
    let version = json::JsonV::Number(Number::Unsigned(1));
    let members = seq![
        wire_model::named("version"@, version),
        wire_model::named("target"@, json::JsonV::String(T::target_name())),
        wire_model::named("expr"@, nested),
    ];
    assert(document == json::JsonV::Object(members));
    envelope::lemma_envelope_names();
    assert(members[0].name == "version"@);
    assert(members[1].name == "target"@);
    assert(members[2].name == "expr"@);
    lemma_found(members, 0);
    lemma_found(members, 1);
    lemma_found(members, 2);
    lemma_all_accepted(members, wire_model::envelope_names());
    assert(wire_model::version(version) == WireVersion::One);
}

/// Scalar tests that are one test get one answer from every value.
pub proof fn lemma_scalars_alike(left: model::DataV, right: model::DataV)
    requires
        model::same_scalar(left.scalar(), right.scalar()),
        wire_model::faithful(left),
        wire_model::faithful(right),
    ensures
        forall|bytes: Seq<u8>|
            #![trigger model::bytes_pass(left.scalar(), bytes)]
            #![trigger model::bytes_pass(right.scalar(), bytes)]
            model::bytes_pass(left.scalar(), bytes) == model::bytes_pass(right.scalar(), bytes),
        !(left.scalar() matches Some(model::ScalarV::Text(_))) ==> left.scalar() == right.scalar(),
        left.scalar() matches Some(model::ScalarV::Text(_)) ==> right.scalar() matches Some(
            model::ScalarV::Text(_),
        ),
{
    match (left.scalar(), right.scalar()) {
        (Some(model::ScalarV::Text(one)), Some(model::ScalarV::Text(other))) => {
            if one.operator.takes_regex() {
                assert(one == other);
            }
            assert forall|text: Seq<char>| #[trigger]
                model::text_passes(one, text) == model::text_passes(other, text) by {}
        },
        _ => {},
    }
}

/// A sound test is a relation, or a scalar test whose family is known.
pub proof fn lemma_relations_stay_apart(left: model::PredicateV, right: model::PredicateV)
    requires
        model::same_predicate(left, right),
        wire_model::sound(model::ExprV::Predicate(left)),
        wire_model::sound(model::ExprV::Predicate(right)),
    ensures
        (left.data is Relation) == (right.data is Relation),
        !(left.data is Relation) ==> model::same_scalar(left.data.scalar(), right.data.scalar()),
{
    assert(model::same_data(left.data, right.data));
}

/// Related values satisfy two relations that are one relation alike.
pub proof fn lemma_many_alike<T: Filterable>(
    left: model::PredicateV,
    right: model::PredicateV,
    related: Seq<T>,
)
    requires
        model::same_predicate(left, right),
        wire_model::well_formed(model::ExprV::Predicate(left)),
        wire_model::well_formed(model::ExprV::Predicate(right)),
        wire_model::sound(model::ExprV::Predicate(left)),
        wire_model::sound(model::ExprV::Predicate(right)),
    ensures
        model::many_pass(left.data, related) == model::many_pass(right.data, related),
{
    lemma_relations_stay_apart(left, right);
    match (left.data, right.data) {
        (model::DataV::Relation(_, one), model::DataV::Relation(_, other)) => {
            assert(model::same_data(left.data, right.data));
            assert forall|i: int| 0 <= i < related.len() implies model::accepts(
                *one,
                &#[trigger] related[i],
            ) == model::accepts(*other, &related[i]) by {
                law_equal_expressions_accept_alike(*one, *other, &related[i]);
            }
        },
        _ => {},
    }
}

/// Expressions that are one expression accept the same candidates, once their
/// literals are settled.
pub proof fn law_equal_expressions_accept_alike<T: Filterable>(
    left: model::ExprV,
    right: model::ExprV,
    candidate: &T,
)
    requires
        model::same_expression(left, right),
        wire_model::well_formed(left),
        wire_model::well_formed(right),
        wire_model::sound(left),
        wire_model::sound(right),
    ensures
        model::accepts(left, candidate) == model::accepts(right, candidate),
    decreases left,
{
    match (left, right) {
        (model::ExprV::Predicate(one), model::ExprV::Predicate(other)) => {
            candidate.lemma_passes_alike(one, other);
        },
        (model::ExprV::And(one), model::ExprV::And(other)) => {
            lemma_branches_accept_alike(one, other, candidate);
        },
        (model::ExprV::Or(one), model::ExprV::Or(other)) => {
            lemma_branches_accept_alike(one, other, candidate);
        },
        (model::ExprV::Not(one), model::ExprV::Not(other)) => {
            law_equal_expressions_accept_alike(*one, *other, candidate);
        },
        _ => {},
    }
}

/// Branches that are the same branches accept the same candidates.
proof fn lemma_branches_accept_alike<T: Filterable>(
    left: Seq<model::ExprV>,
    right: Seq<model::ExprV>,
    candidate: &T,
)
    requires
        model::same_branches(left, right),
        wire_model::all_well_formed(left),
        wire_model::all_well_formed(right),
        wire_model::all_sound(left),
        wire_model::all_sound(right),
    ensures
        model::all_accept(left, candidate) == model::all_accept(right, candidate),
        model::any_accepts(left, candidate) == model::any_accepts(right, candidate),
    decreases left,
{
    assert forall|i: int| 0 <= i < left.len() implies model::accepts(
        #[trigger] left[i],
        candidate,
    ) == model::accepts(right[i], candidate) by {
        assert(model::same_expression(left[i], right[i]));
        assert(wire_model::well_formed(right[i]) && wire_model::sound(right[i]));
        law_equal_expressions_accept_alike(left[i], right[i], candidate);
    }
    lemma_agreeing_branches(left, right, candidate);
}

/// Branches that agree on a candidate one by one agree on it together.
proof fn lemma_agreeing_branches<T: Filterable>(
    left: Seq<model::ExprV>,
    right: Seq<model::ExprV>,
    candidate: &T,
)
    requires
        left.len() == right.len(),
        forall|i: int|
            0 <= i < left.len() ==> model::accepts(#[trigger] left[i], candidate)
                == model::accepts(right[i], candidate),
    ensures
        model::all_accept(left, candidate) == model::all_accept(right, candidate),
        model::any_accepts(left, candidate) == model::any_accepts(right, candidate),
{
    if model::all_accept(left, candidate) {
        assert forall|i: int| 0 <= i < right.len() implies model::accepts(
            #[trigger] right[i],
            candidate,
        ) by {
            assert(model::accepts(left[i], candidate));
        }
    }
    if model::all_accept(right, candidate) {
        assert forall|i: int| 0 <= i < left.len() implies model::accepts(
            #[trigger] left[i],
            candidate,
        ) by {
            assert(model::accepts(right[i], candidate));
        }
    }
    if model::any_accepts(left, candidate) {
        let i = choose|i: int|
            0 <= i < left.len() && model::accepts(#[trigger] left[i], candidate);
        assert(model::accepts(right[i], candidate));
    }
    if model::any_accepts(right, candidate) {
        let i = choose|i: int|
            0 <= i < right.len() && model::accepts(#[trigger] right[i], candidate);
        assert(model::accepts(left[i], candidate));
    }
}

/// Related values satisfy a relation as they did before it was settled.
pub proof fn lemma_settling_many_keeps_answers<T: Filterable>(
    data: model::DataV,
    related: Seq<T>,
)
    requires
        model::validated_many::<T>(data).0 is None,
        data matches model::DataV::Relation(_, inner) ==> model::resolved(*inner),
    ensures
        model::many_pass(model::validated_many::<T>(data).1, related) == model::many_pass(
            data,
            related,
        ),
{
    if let model::DataV::Relation(_, inner) = data {
        let settled = model::validated::<T>(*inner).1;
        assert forall|i: int| 0 <= i < related.len() implies model::accepts(
            settled,
            &#[trigger] related[i],
        ) == model::accepts(*inner, &related[i]) by {
            law_settling_keeps_what_is_accepted(*inner, &related[i]);
        }
    }
}

/// Settling an expression whose literals are known keeps what it accepts.
pub proof fn law_settling_keeps_what_is_accepted<T: Filterable>(
    expression: model::ExprV,
    candidate: &T,
)
    requires
        model::resolved(expression),
        model::validated::<T>(expression).0 is None,
    ensures
        model::accepts(model::validated::<T>(expression).1, candidate) == model::accepts(
            expression,
            candidate,
        ),
    decreases expression,
{
    match expression {
        model::ExprV::Predicate(predicate) => {
            candidate.lemma_settling_keeps_answers(predicate, Some(T::target_name()));
        },
        model::ExprV::And(branches) => {
            lemma_settling_branches_keeps_what_is_accepted(branches, candidate);
        },
        model::ExprV::Or(branches) => {
            lemma_settling_branches_keeps_what_is_accepted(branches, candidate);
        },
        model::ExprV::Not(inner) => {
            law_settling_keeps_what_is_accepted(*inner, candidate);
        },
        model::ExprV::Invalid(_) => {},
    }
}

/// Settling branches keeps what they accept.
proof fn lemma_settling_branches_keeps_what_is_accepted<T: Filterable>(
    branches: Seq<model::ExprV>,
    candidate: &T,
)
    requires
        model::all_resolved(branches),
        model::first_reason(model::reasons(model::validated_branches::<T>(branches))) is None,
    ensures
        ({
            let settled = model::values(model::validated_branches::<T>(branches));
            &&& model::all_accept(settled, candidate) == model::all_accept(branches, candidate)
            &&& model::any_accepts(settled, candidate) == model::any_accepts(branches, candidate)
        }),
    decreases branches,
{
    let outcomes = model::validated_branches::<T>(branches);
    let settled = model::values(outcomes);
    lemma_first_reason(model::reasons(outcomes));
    assert forall|i: int| 0 <= i < settled.len() implies model::accepts(
        #[trigger] settled[i],
        candidate,
    ) == model::accepts(branches[i], candidate) by {
        assert(model::reasons(outcomes)[i] is None);
        assert(outcomes[i] == model::validated::<T>(branches[i]));
        law_settling_keeps_what_is_accepted(branches[i], candidate);
    }
    lemma_agreeing_branches(settled, branches, candidate);
}

/// An expression that is written and read back accepts the candidates that it
/// accepted before, as long as the envelope keeps the complexity limits.
pub proof fn law_reading_back_keeps_what_is_accepted<T: Filterable>(
    expression: model::ExprV,
    document: json::JsonV,
    candidate: &T,
)
    requires
        wire_model::well_formed(expression),
        model::resolved(expression),
        wire_model::enveloped::<T>(expression) == Ok::<json::JsonV, FilterExpressionErrorKind>(
            document,
        ),
        wire_model::envelope_within_limits(document),
    ensures
        wire_model::decoded::<T>(document) is Ok,
        model::accepts(wire_model::decoded::<T>(document)->Ok_0, candidate) == model::accepts(
            expression,
            candidate,
        ),
{
    let settled = model::validated::<T>(expression).1;
    let read = wire_model::decoded::<T>(document)->Ok_0;
    law_decoding_undoes_encoding::<T>(expression, document);
    lemma_expression_settles_again::<T>(expression);
    law_decoded_expressions_are_well_formed::<T>(document);
    law_equal_expressions_accept_alike(settled, read, candidate);
    law_settling_keeps_what_is_accepted(expression, candidate);
}

/// Flattening well-formed expressions gives at least as many well-formed
/// branches, none of the junction's own kind.
proof fn lemma_flattened_is_well_formed(conjunction: bool, expressions: Seq<model::ExprV>)
    requires
        wire_model::all_well_formed(expressions),
    ensures
        ({
            let branches = wire_model::flattened(conjunction, expressions);
            &&& branches.len() >= expressions.len()
            &&& wire_model::all_well_formed(branches)
            &&& forall|i: int|
                0 <= i < branches.len() ==> if conjunction {
                    !(#[trigger] branches[i] is And)
                } else {
                    !(branches[i] is Or)
                }
        }),
    decreases expressions.len(),
{
    if expressions.len() > 0 {
        let head = expressions.drop_last();
        let last = expressions.last();
        assert forall|i: int| 0 <= i < head.len() implies wire_model::well_formed(
            #[trigger] head[i],
        ) by {
            assert(head[i] == expressions[i]);
        }
        lemma_flattened_is_well_formed(conjunction, head);
        assert(wire_model::well_formed(expressions[expressions.len() - 1]));
        let earlier = wire_model::flattened(conjunction, head);
        let added = wire_model::contribution(conjunction, last);
        let branches = wire_model::flattened(conjunction, expressions);
        assert(branches == earlier + added);
        assert forall|i: int| 0 <= i < branches.len() implies wire_model::well_formed(
            #[trigger] branches[i],
        ) && if conjunction {
            !(branches[i] is And)
        } else {
            !(branches[i] is Or)
        } by {
            if i < earlier.len() {
                assert(branches[i] == earlier[i]);
            } else {
                assert(branches[i] == added[i - earlier.len()]);
                lemma_contribution_is_well_formed(conjunction, last, i - earlier.len());
            }
        }
        lemma_contribution_is_well_formed(conjunction, last, 0);
    }
}

/// A well-formed expression contributes at least one branch, and well-formed
/// ones of another kind only.
proof fn lemma_contribution_is_well_formed(
    conjunction: bool,
    expression: model::ExprV,
    index: int,
)
    requires
        wire_model::well_formed(expression),
        0 <= index,
    ensures
        ({
            let added = wire_model::contribution(conjunction, expression);
            &&& added.len() > 0
            &&& index < added.len() ==> wire_model::well_formed(added[index]) && if conjunction {
                !(added[index] is And)
            } else {
                !(added[index] is Or)
            }
        }),
{
    match expression {
        model::ExprV::And(branches) => {
            assert(wire_model::all_well_formed(branches));
            if conjunction && index < branches.len() {
                assert(wire_model::well_formed(branches[index]));
            }
        },
        model::ExprV::Or(branches) => {
            assert(wire_model::all_well_formed(branches));
            if !conjunction && index < branches.len() {
                assert(wire_model::well_formed(branches[index]));
            }
        },
        _ => {},
    }
}

/// A well-structured expression object denotes a well-formed expression.
proof fn lemma_built_is_well_formed(node: wire_model::RawNodeV)
    requires
        wire_model::structured(node),
        wire_model::built(node) is Ok,
    ensures
        wire_model::well_formed(wire_model::built(node)->Ok_0),
    decreases node,
{
    lemma_connectives();
    let operator = node.op->0->String_0;
    if operator == "and"@ || operator == "or"@ {
        if let Some(wire_model::RawArgsV::Nodes(nodes)) = node.args {
            let built = wire_model::built_all(nodes);
            assert(wire_model::args_shape(node.args));
            assert(wire_model::all_structured(nodes));
            assert forall|i: int| 0 <= i < built.len() implies wire_model::well_formed(
                #[trigger] built[i],
            ) by {
                assert(wire_model::structured(nodes[i]));
                if wire_model::built(nodes[i]) is Ok {
                    lemma_built_is_well_formed(nodes[i]);
                }
            }
            lemma_flattened_is_well_formed(operator == "and"@, built);
        }
    } else if operator == "not"@ {
        if let Some(wire_model::RawExpressionV::Node(inner)) = node.expression {
            assert(wire_model::nested_shape(node.expression));
            lemma_built_is_well_formed(*inner);
        }
    } else if operator == "relation"@ {
        assert(wire_model::built(node) == wire_model::built_relation(node));
        if let Some(wire_model::RawExpressionV::Node(inner)) = node.expression {
            assert(wire_model::nested_shape(node.expression));
            if wire_model::built(*inner) is Ok {
                lemma_built_is_well_formed(*inner);
            }
            assert(wire_model::well_formed(wire_model::marked(wire_model::built(*inner))));
        }
    } else {
        assert(wire_model::built(node) == wire_model::built_scalar(operator, node));
        let built = wire_model::built_scalar(operator, node)->Ok_0;
        assert(wire_model::faithful(built->Predicate_0.data));
    }
}

/// An expression that was read from an envelope is well formed, settled, and
/// accepted by its target.
pub proof fn law_decoded_expressions_are_well_formed<T: Filterable>(document: json::JsonV)
    requires
        wire_model::decoded::<T>(document) is Ok,
    ensures
        wire_model::well_formed(wire_model::decoded::<T>(document)->Ok_0),
        wire_model::sound(wire_model::decoded::<T>(document)->Ok_0),
        model::resolved(wire_model::decoded::<T>(document)->Ok_0),
{
    let members = document->Object_0;
    let node = wire_model::member_expression(members, "expr"@)->0->Node_0;
    lemma_built_is_well_formed(*node);
    lemma_expression_settles_again::<T>(wire_model::built(*node)->Ok_0);
}

/// The literals of joined branches are known where theirs are.
proof fn lemma_branches_stay_resolved(left: Seq<model::ExprV>, right: Seq<model::ExprV>)
    requires
        model::all_resolved(left),
        model::all_resolved(right),
    ensures
        model::all_resolved(left + right),
{
    assert forall|i: int| 0 <= i < (left + right).len() implies model::resolved(
        #[trigger] (left + right)[i],
    ) by {
        if i < left.len() {
            assert(model::resolved(left[i]));
        } else {
            assert(model::resolved(right[i - left.len()]));
        }
    }
}

/// Joining well-formed expressions, and negating one, gives a well-formed
/// expression, and one whose literals are known where theirs are.
pub proof fn law_combining_keeps_well_formedness(left: model::ExprV, right: model::ExprV)
    requires
        wire_model::well_formed(left),
        wire_model::well_formed(right),
    ensures
        wire_model::well_formed(
            model::ExprV::And(expression::conjuncts(left) + expression::conjuncts(right)),
        ),
        wire_model::well_formed(
            model::ExprV::Or(expression::disjuncts(left) + expression::disjuncts(right)),
        ),
        wire_model::well_formed(model::ExprV::Not(Box::new(left))),
        model::resolved(left) ==> model::resolved(model::ExprV::Not(Box::new(left))),
        model::resolved(left) && model::resolved(right) ==> model::resolved(
            model::ExprV::And(expression::conjuncts(left) + expression::conjuncts(right)),
        ) && model::resolved(
            model::ExprV::Or(expression::disjuncts(left) + expression::disjuncts(right)),
        ),
{
    if model::resolved(left) && model::resolved(right) {
        lemma_branches_stay_resolved(expression::conjuncts(left), expression::conjuncts(right));
        lemma_branches_stay_resolved(expression::disjuncts(left), expression::disjuncts(right));
    }
    let both = seq![left, right];
    assert(both.drop_last() =~= seq![left]);
    assert(both.drop_last().drop_last() =~= Seq::<model::ExprV>::empty());
    assert forall|conjunction: bool| #[trigger]
        wire_model::flattened(conjunction, both) == wire_model::contribution(conjunction, left)
            + wire_model::contribution(conjunction, right) by {
        reveal_with_fuel(wire_model::flattened, 3);
        assert(wire_model::flattened(conjunction, both.drop_last()) =~= wire_model::contribution(
            conjunction,
            left,
        ));
    }
    lemma_flattened_is_well_formed(true, both);
    lemma_flattened_is_well_formed(false, both);
    assert(expression::conjuncts(left) + expression::conjuncts(right) =~= wire_model::flattened(
        true,
        both,
    ));
    assert(expression::disjuncts(left) + expression::disjuncts(right) =~= wire_model::flattened(
        false,
        both,
    ));
}

/// An expression is the same as itself.
pub proof fn law_equality_is_reflexive(expression: model::ExprV)
    ensures
        model::same_expression(expression, expression),
    decreases expression,
{
    match expression {
        model::ExprV::Predicate(predicate) => {
            if let model::DataV::Relation(_, inner) = predicate.data {
                law_equality_is_reflexive(*inner);
            }
            assert(model::same_data(predicate.data, predicate.data));
            assert(model::same_predicate(predicate, predicate));
        },
        model::ExprV::And(branches) | model::ExprV::Or(branches) => {
            assert forall|i: int| 0 <= i < branches.len() implies model::same_expression(
                #[trigger] branches[i],
                branches[i],
            ) by {
                law_equality_is_reflexive(branches[i]);
            }
            assert(model::same_branches(branches, branches));
        },
        model::ExprV::Not(inner) => {
            law_equality_is_reflexive(*inner);
        },
        model::ExprV::Invalid(_) => {},
    }
}

/// Equality of expressions does not depend on the side.
pub proof fn law_equality_is_symmetric(left: model::ExprV, right: model::ExprV)
    ensures
        model::same_expression(left, right) == model::same_expression(right, left),
    decreases left,
{
    match (left, right) {
        (model::ExprV::Predicate(one), model::ExprV::Predicate(other)) => {
            match (one.data, other.data) {
                (model::DataV::Relation(_, one_inner), model::DataV::Relation(_, other_inner)) => {
                    law_equality_is_symmetric(*one_inner, *other_inner);
                },
                _ => {},
            }
            assert(model::same_data(one.data, other.data) == model::same_data(
                other.data,
                one.data,
            ));
            assert(model::same_predicate(one, other) == model::same_predicate(other, one));
        },
        (model::ExprV::And(one), model::ExprV::And(other)) => {
            lemma_branches_symmetric(one, other);
        },
        (model::ExprV::Or(one), model::ExprV::Or(other)) => {
            lemma_branches_symmetric(one, other);
        },
        (model::ExprV::Not(one), model::ExprV::Not(other)) => {
            law_equality_is_symmetric(*one, *other);
        },
        _ => {},
    }
}

/// Equality of branches does not depend on the side.
proof fn lemma_branches_symmetric(left: Seq<model::ExprV>, right: Seq<model::ExprV>)
    ensures
        model::same_branches(left, right) == model::same_branches(right, left),
    decreases left,
{
    if left.len() == right.len() {
        assert forall|i: int| 0 <= i < left.len() implies model::same_expression(
            #[trigger] left[i],
            right[i],
        ) == model::same_expression(right[i], left[i]) by {
            law_equality_is_symmetric(left[i], right[i]);
        }
        if model::same_branches(left, right) {
            assert forall|i: int| 0 <= i < right.len() implies model::same_expression(
                #[trigger] right[i],
                left[i],
            ) by {
                assert(model::same_expression(left[i], right[i]));
            }
        }
        if model::same_branches(right, left) {
            assert forall|i: int| 0 <= i < left.len() implies model::same_expression(
                #[trigger] left[i],
                right[i],
            ) by {
                assert(model::same_expression(right[i], left[i]));
            }
        }
    }
}

/// What the handles of fields build is well formed, and its literals are known:
/// tests without a pattern, tests with a pattern that compiles, and relations
/// over expressions of that kind.
pub proof fn law_tests_on_fields_are_well_formed(
    id: FieldId,
    data: model::DataV,
    operator: TextOperator,
    values: Seq<Seq<char>>,
    pattern: Seq<char>,
    ignore_case: bool,
)
    requires
        data matches model::DataV::Relation(_, inner) ==> wire_model::well_formed(*inner)
            && model::resolved(*inner),
        !operator.takes_regex(),
        outside::pattern_compiles(pattern, ignore_case),
    ensures
        data is Text || data is Bool || data is Signed || data is Unsigned || data is Enum || data
            is Relation ==> model::resolved(fields::on_field(id, data)),
        data is Bool || data is Signed || data is Unsigned || data is Enum || data is Relation
            ==> wire_model::well_formed(fields::on_field(id, data)),
        wire_model::well_formed(fields::on_field(id, fields::plain_text(operator, values))),
        wire_model::well_formed(
            fields::on_field(
                id,
                model::DataV::Text(
                    model::TextV {
                        operator: if ignore_case {
                            TextOperator::RegexIgnoreCase
                        } else {
                            TextOperator::Regex
                        },
                        values: seq![pattern],
                        regex: Some((pattern, ignore_case)),
                    },
                ),
            ),
        ),
{
}

} // verus!
