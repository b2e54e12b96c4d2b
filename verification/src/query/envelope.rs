//! The envelope that filter expressions travel in.

use vstd::prelude::*;
use vstd::string::*;

use crate::decimal;
use crate::decimal::format_signed;
use crate::decimal::format_unsigned;
use crate::json;
use crate::json::Json;
use crate::json::Member;
use crate::json::Number;
use crate::query::error::FilterExpressionError;
use crate::query::error::FilterExpressionErrorKind;
use crate::query::expression::FilterExpr;
use crate::query::filterable::Filterable;
use crate::query::grammar::SetOperator;
use crate::query::grammar::TextOperator;
use crate::query::grammar::VERSION;
use crate::query::matching;
use crate::query::matching::ExprData;
use crate::query::matching::ResolvedScalar;
use crate::query::model;
use crate::query::round_trip;
use crate::query::wire;
use crate::query::wire::RawExpression;
use crate::query::wire::WireValue;
use crate::query::wire::WireVersion;
use crate::query::wire_model;
use crate::text::str_eq;

verus! {

/// An envelope before its expression is looked at.
pub struct RawEnvelope {
    pub invalid_member: bool,
    pub version: Option<WireVersion>,
    pub target: Option<WireValue>,
    pub expression: Option<RawExpression>,
}

/// The version of the first member with a name.
pub open spec fn member_version(members: Seq<json::MemberV>, name: Seq<char>) -> Option<
    WireVersion,
> {
    let found = wire_model::position(members, name);
    if 0 <= found < members.len() {
        Some(wire_model::version(members[found].value))
    } else {
        None
    }
}

/// The names of an envelope's members are distinct.
pub proof fn lemma_envelope_names()
    ensures
        "version"@ != "target"@,
        "version"@ != "expr"@,
        "target"@ != "expr"@,
        forall|name: Seq<char>| #[trigger]
            wire_model::envelope_names().contains(name) <==> name == "version"@ || name
                == "target"@ || name == "expr"@,
{
    reveal_strlit("version");
    reveal_strlit("target");
    reveal_strlit("expr");
    let names = wire_model::envelope_names();
    assert(names[0] == "version"@);
    assert(names[1] == "target"@);
    assert(names[2] == "expr"@);
}

/// What the first members say of the version once one more is looked at.
proof fn lemma_version_step(members: Seq<json::MemberV>, index: int, name: Seq<char>)
    requires
        0 <= index < members.len(),
    ensures
        ({
            let earlier = members.take(index);
            let absent = wire_model::position(earlier, name) == index;
            let found = members[index].name == name;
            &&& absent <==> member_version(earlier, name) is None
            &&& member_version(members.take(index + 1), name) == if absent && found {
                Some(wire_model::version(members[index].value))
            } else {
                member_version(earlier, name)
            }
        }),
{
    wire::lemma_position(members, index, name);
    let earlier = members.take(index);
    let longer = members.take(index + 1);
    let found = wire_model::position(earlier, name);
    if found < index {
        assert(longer[found] == earlier[found]);
    }
}

/// A position lies among the members or right behind them.
pub proof fn lemma_position_range(members: Seq<json::MemberV>, name: Seq<char>)
    ensures
        0 <= wire_model::position(members, name) <= members.len(),
    decreases members.len(),
{
    if members.len() > 0 {
        lemma_position_range(members.drop_last(), name);
    }
}

impl RawEnvelope {
    /// Read an envelope. A member with an unknown name, or with one that
    /// occurred before, is marked and otherwise passed over.
    pub fn from_map(members: &Vec<Member>) -> (envelope: RawEnvelope)
        ensures
            envelope.invalid_member == wire_model::has_invalid_member(
                json::member_views(members@),
                wire_model::envelope_names(),
            ),
            envelope.version == member_version(json::member_views(members@), "version"@),
            wire::value_view(envelope.target) == wire_model::member_value(
                json::member_views(members@),
                "target"@,
            ),
            wire::expression_view(envelope.expression) == wire_model::member_expression(
                json::member_views(members@),
                "expr"@,
            ),
    {
        let ghost all = json::member_views(members@);
        let ghost known = wire_model::envelope_names();
        let mut envelope = RawEnvelope {
            invalid_member: false,
            version: None,
            target: None,
            expression: None,
        };
        let mut index: usize = 0;
        proof {
            assert(all.take(0).len() == 0);
        }
        while index < members.len()
            invariant
                index <= members@.len(),
                all == json::member_views(members@),
                known == wire_model::envelope_names(),
                envelope.invalid_member == wire_model::has_invalid_member(
                    all.take(index as int),
                    known,
                ),
                envelope.version == member_version(all.take(index as int), "version"@),
                wire::value_view(envelope.target) == wire_model::member_value(
                    all.take(index as int),
                    "target"@,
                ),
                wire::expression_view(envelope.expression) == wire_model::member_expression(
                    all.take(index as int),
                    "expr"@,
                ),
            decreases members@.len() - index,
        {
            let member = &members[index];
            let name = member.name.as_str();
            proof {
                lemma_envelope_names();
                lemma_version_step(all, index as int, "version"@);
                wire::lemma_member_step(all, index as int, "target"@);
                wire::lemma_member_step(all, index as int, "expr"@);
                wire::lemma_invalid_step(all, index as int, known);
                assert(all[index as int] == member@);
            }
            if str_eq(name, "version") && envelope.version.is_none() {
                envelope.version = Some(wire::read_version(&member.value));
            } else if str_eq(name, "target") && envelope.target.is_none() {
                envelope.target = Some(wire::read_value(&member.value));
            } else if str_eq(name, "expr") && envelope.expression.is_none() {
                envelope.expression = Some(RawExpression::read(&member.value));
            } else {
                envelope.invalid_member = true;
            }
            index += 1;
        }
        assert(all.take(all.len() as int) =~= all);
        envelope
    }
}

/// The outcome of decoding in contracts.
pub open spec fn decoded_view<T>(decoded: Result<FilterExpr<T>, FilterExpressionError>) -> Result<
    model::ExprV,
    FilterExpressionErrorKind,
> {
    match decoded {
        Ok(expression) => Ok(expression@),
        Err(error) => Err(error@),
    }
}

impl<T: Filterable> FilterExpr<T> {
    /// Read an expression from a version 1 envelope.
    ///
    /// # Errors
    ///
    /// The reason against the first check that fails: the envelope's shape,
    /// the expression's shape and complexity, the version, the target, the
    /// operators, and the fields and literals.
    pub fn decode(document: &Json) -> (decoded: Result<FilterExpr<T>, FilterExpressionError>)
        ensures
            decoded_view(decoded) == wire_model::decoded::<T>(document@),
    {
        let members = match document {
            Json::Object(members) => members,
            _ => return Err(FilterExpressionError::new(FilterExpressionErrorKind::InvalidStructure)),
        };
        proof {
            json::lemma_views(arbitrary(), *members);
            lemma_position_range(json::member_views(members@), "version"@);
        }
        let envelope = RawEnvelope::from_map(members);
        let (version, target, node) = match (
            envelope.version,
            &envelope.target,
            &envelope.expression,
        ) {
            (Some(version), Some(WireValue::String(target)), Some(RawExpression::Node(node))) => (
                version,
                target.as_str(),
                node,
            ),
            _ => return Err(FilterExpressionError::new(FilterExpressionErrorKind::InvalidStructure)),
        };
        if envelope.invalid_member || node.validate_structure().is_err() || !node.within_limits() {
            return Err(FilterExpressionError::new(FilterExpressionErrorKind::InvalidStructure));
        }
        match version {
            WireVersion::One => {},
            WireVersion::Unsupported => return Err(
                FilterExpressionError::new(FilterExpressionErrorKind::UnsupportedVersion),
            ),
            WireVersion::Invalid => return Err(
                FilterExpressionError::new(FilterExpressionErrorKind::InvalidStructure),
            ),
        }
        if !matching::valid_wire_name(target) || !str_eq(target, T::filter_target()) {
            return Err(FilterExpressionError::new(FilterExpressionErrorKind::InvalidTarget));
        }
        let mut data = match node.to_expression() {
            Ok(data) => data,
            Err(error) => return Err(error),
        };
        if let Err(error) = matching::validate_expression::<T>(&mut data) {
            return Err(error);
        }
        if !matching::expression_is_resolved(&data) {
            return Err(FilterExpressionError::new(FilterExpressionErrorKind::InvalidStructure));
        }
        proof {
            assert(wire_model::decoded::<T>(document@) == Ok::<
                model::ExprV,
                FilterExpressionErrorKind,
            >(data@));
            round_trip::law_decoded_expressions_are_well_formed::<T>(document@);
        }
        Ok(FilterExpr::from_data(data))
    }
}

/// The outcome of encoding in contracts.
pub open spec fn document_view(document: Result<Json, FilterExpressionError>) -> Result<
    json::JsonV,
    FilterExpressionErrorKind,
> {
    match document {
        Ok(document) => Ok(document@),
        Err(error) => Err(error@),
    }
}

/// A set of literals, or the first one where the operator takes one.
fn write_literals(set: bool, mut values: Vec<Json>) -> (document: Result<
    Json,
    FilterExpressionError,
>)
    ensures
        document_view(document) == wire_model::literals(set, json::views(values@)),
{
    if set {
        proof {
            json::lemma_views(values, arbitrary());
        }
        Ok(Json::Array(values))
    } else if values.len() > 0 {
        Ok(values.swap_remove(0))
    } else {
        Err(FilterExpressionError::new(FilterExpressionErrorKind::InvalidStructure))
    }
}

/// The documents of a list of strings.
fn write_texts(values: &[String]) -> (documents: Vec<Json>)
    ensures
        json::views(documents@) == matching::texts(values@).map_values(
            |value: Seq<char>| json::JsonV::String(value),
        ),
{
    let mut documents: Vec<Json> = Vec::new();
    let mut index: usize = 0;
    while index < values.len()
        invariant
            index <= values@.len(),
            documents@.len() == index,
            forall|i: int|
                0 <= i < index ==> (#[trigger] documents@[i])@ == json::JsonV::String(values@[i]@),
        decreases values@.len() - index,
    {
        documents.push(Json::String(values[index].clone()));
        index += 1;
    }
    assert(json::views(documents@) =~= matching::texts(values@).map_values(
        |value: Seq<char>| json::JsonV::String(value),
    ));
    documents
}

/// The documents of a list of booleans.
fn write_bools(values: &[bool]) -> (documents: Vec<Json>)
    ensures
        json::views(documents@) == values@.map_values(|value: bool| json::JsonV::Bool(value)),
{
    let mut documents: Vec<Json> = Vec::new();
    let mut index: usize = 0;
    while index < values.len()
        invariant
            index <= values@.len(),
            documents@.len() == index,
            forall|i: int|
                0 <= i < index ==> (#[trigger] documents@[i])@ == json::JsonV::Bool(values@[i]),
        decreases values@.len() - index,
    {
        documents.push(Json::Bool(values[index]));
        index += 1;
    }
    assert(json::views(documents@) =~= values@.map_values(
        |value: bool| json::JsonV::Bool(value),
    ));
    documents
}

/// Integers on their way to the wire, where they travel as decimal text.
pub enum IntegerValue<'a> {
    Signed(SetOperator, &'a [i128]),
    Unsigned(SetOperator, &'a [u128]),
}

impl<'a> IntegerValue<'a> {
    /// The integers in the model.
    pub open spec fn view(&self) -> model::ScalarV {
        match self {
            IntegerValue::Signed(operator, values) => model::ScalarV::Signed(
                model::SetV { operator: *operator, values: values@ },
            ),
            IntegerValue::Unsigned(operator, values) => model::ScalarV::Unsigned(
                model::SetV { operator: *operator, values: values@ },
            ),
        }
    }

    /// The literal that the integers travel as: a single-valued operator
    /// carries a scalar, and only `in` and `not_in` carry a list.
    ///
    /// # Errors
    ///
    /// [`FilterExpressionErrorKind::InvalidStructure`] where a single-valued
    /// operator has no value.
    pub fn encode(&self) -> (document: Result<Json, FilterExpressionError>)
        ensures
            document_view(document) == wire_model::scalar_value(self@),
    {
        let mut documents: Vec<Json> = Vec::new();
        let mut index: usize = 0;
        match self {
            IntegerValue::Signed(operator, values) => {
                while index < values.len()
                    invariant
                        index <= values@.len(),
                        documents@.len() == index,
                        forall|i: int|
                            0 <= i < index ==> (#[trigger] documents@[i])@ == json::JsonV::String(
                                decimal::signed_decimal(values@[i] as int),
                            ),
                    decreases values@.len() - index,
                {
                    documents.push(Json::String(format_signed(values[index])));
                    index += 1;
                }
                assert(json::views(documents@) =~= values@.map_values(
                    |value: i128| json::JsonV::String(decimal::signed_decimal(value as int)),
                ));
                write_literals(operator.takes_a_set(), documents)
            },
            IntegerValue::Unsigned(operator, values) => {
                while index < values.len()
                    invariant
                        index <= values@.len(),
                        documents@.len() == index,
                        forall|i: int|
                            0 <= i < index ==> (#[trigger] documents@[i])@ == json::JsonV::String(
                                decimal::signed_decimal(values@[i] as int),
                            ),
                    decreases values@.len() - index,
                {
                    documents.push(Json::String(format_unsigned(values[index])));
                    index += 1;
                }
                assert(json::views(documents@) =~= values@.map_values(
                    |value: u128| json::JsonV::String(decimal::signed_decimal(value as int)),
                ));
                write_literals(operator.takes_a_set(), documents)
            },
        }
    }
}

impl<'a> ResolvedScalar<'a> {
    /// The literal that a scalar test travels with.
    ///
    /// # Errors
    ///
    /// [`FilterExpressionErrorKind::InvalidStructure`] where a single-valued
    /// operator has no value.
    pub fn encode(&self) -> (document: Result<Json, FilterExpressionError>)
        ensures
            document_view(document) == wire_model::scalar_value(self@),
    {
        match self {
            ResolvedScalar::Text(operator, values, _) => write_literals(
                matches!(operator, TextOperator::In | TextOperator::NotIn),
                write_texts(values),
            ),
            ResolvedScalar::Bool(operator, values) => write_literals(
                operator.takes_a_set(),
                write_bools(values),
            ),
            ResolvedScalar::Signed(operator, values) => IntegerValue::Signed(
                *operator,
                values,
            ).encode(),
            ResolvedScalar::Unsigned(operator, values) => IntegerValue::Unsigned(
                *operator,
                values,
            ).encode(),
            ResolvedScalar::Enum(operator, values) => write_literals(
                operator.takes_a_set(),
                write_texts(values),
            ),
        }
    }
}

impl ExprData {
    /// The document of an expression.
    ///
    /// # Errors
    ///
    /// The first reason met in reading order: one that the expression holds in
    /// place of a branch, or
    /// [`FilterExpressionErrorKind::InvalidStructure`] for literals whose
    /// family is not settled and for a single-valued operator without a value.
    pub fn encode(&self) -> (document: Result<Json, FilterExpressionError>)
        ensures
            document_view(document) == wire_model::encoded(self@),
        decreases self,
    {
        let mut members: Vec<Member> = Vec::new();
        match self {
            ExprData::And(branches) => {
                proof {
                    matching::lemma_junction_views(*branches);
                }
                let documents = match encode_branches(branches) {
                    Ok(documents) => documents,
                    Err(error) => return Err(error),
                };
                proof {
                    json::lemma_views(documents, arbitrary());
                }
                members.push(json::member("op", json::string("and")));
                members.push(json::member("args", Json::Array(documents)));
                assert(json::member_views(members@) =~= seq![
                    wire_model::named("op"@, json::JsonV::String("and"@)),
                    wire_model::named("args"@, json::JsonV::Array(json::views(documents@))),
                ]);
            },
            ExprData::Or(branches) => {
                proof {
                    matching::lemma_junction_views(*branches);
                }
                let documents = match encode_branches(branches) {
                    Ok(documents) => documents,
                    Err(error) => return Err(error),
                };
                proof {
                    json::lemma_views(documents, arbitrary());
                }
                members.push(json::member("op", json::string("or")));
                members.push(json::member("args", Json::Array(documents)));
                assert(json::member_views(members@) =~= seq![
                    wire_model::named("op"@, json::JsonV::String("or"@)),
                    wire_model::named("args"@, json::JsonV::Array(json::views(documents@))),
                ]);
            },
            ExprData::Not(inner) => {
                let document = match inner.encode() {
                    Ok(document) => document,
                    Err(error) => return Err(error),
                };
                let ghost nested = document@;
                members.push(json::member("op", json::string("not")));
                members.push(json::member("expr", document));
                assert(json::member_views(members@) =~= seq![
                    wire_model::named("op"@, json::JsonV::String("not"@)),
                    wire_model::named("expr"@, nested),
                ]);
            },
            ExprData::Predicate(predicate) => {
                if let Some(relation) = predicate.relation_internal() {
                    let document = match relation.expression.encode() {
                        Ok(document) => document,
                        Err(error) => return Err(error),
                    };
                    let ghost nested = document@;
                    members.push(json::member("op", json::string("relation")));
                    members.push(json::member("field", json::string(predicate.field())));
                    members.push(
                        json::member("quantifier", json::string(relation.quantifier.label())),
                    );
                    members.push(json::member("expr", document));
                    assert(json::member_views(members@) =~= seq![
                        wire_model::named("op"@, json::JsonV::String("relation"@)),
                        wire_model::named("field"@, json::JsonV::String(predicate@.field)),
                        wire_model::named(
                            "quantifier"@,
                            json::JsonV::String(relation.quantifier.spelling()),
                        ),
                        wire_model::named("expr"@, nested),
                    ]);
                } else {
                    let scalar = match predicate.scalar_internal() {
                        Some(scalar) => scalar,
                        None => return Err(
                            FilterExpressionError::new(FilterExpressionErrorKind::InvalidStructure),
                        ),
                    };
                    let value = match scalar.encode() {
                        Ok(value) => value,
                        Err(error) => return Err(error),
                    };
                    let ghost literal = value@;
                    members.push(json::member("op", json::string(predicate.operator_label())));
                    members.push(json::member("field", json::string(predicate.field())));
                    members.push(json::member("value", value));
                    assert(json::member_views(members@) =~= seq![
                        wire_model::named(
                            "op"@,
                            json::JsonV::String(predicate@.data.operator_spelling()),
                        ),
                        wire_model::named("field"@, json::JsonV::String(predicate@.field)),
                        wire_model::named("value"@, literal),
                    ]);
                }
            },
            ExprData::Invalid(reason) => return Err(FilterExpressionError::new(*reason)),
        }
        Ok(json::object(members))
    }
}

/// The documents of the branches of a junction.
fn encode_branches(branches: &Vec<ExprData>) -> (documents: Result<
    Vec<Json>,
    FilterExpressionError,
>)
    ensures
        match documents {
            Ok(documents) => wire_model::encoded_all(matching::views(branches@)) == Ok::<
                Seq<json::JsonV>,
                FilterExpressionErrorKind,
            >(json::views(documents@)),
            Err(error) => wire_model::encoded_all(matching::views(branches@)) == Err::<
                Seq<json::JsonV>,
                FilterExpressionErrorKind,
            >(error@),
        },
    decreases branches,
{
    let ghost expressions = matching::views(branches@);
    let mut documents: Vec<Json> = Vec::new();
    let mut index: usize = 0;
    assert(json::views(documents@) =~= Seq::empty());
    assert(expressions.take(0) =~= Seq::empty());
    while index < branches.len()
        invariant
            index <= branches@.len(),
            expressions == matching::views(branches@),
            wire_model::encoded_all(expressions.take(index as int)) == Ok::<
                Seq<json::JsonV>,
                FilterExpressionErrorKind,
            >(json::views(documents@)),
        decreases branches@.len() - index,
    {
        proof {
            let longer = expressions.take(index + 1);
            assert(longer.drop_last() =~= expressions.take(index as int));
            assert(longer[index as int] == branches@[index as int]@);
        }
        let ghost earlier = json::views(documents@);
        match branches[index].encode() {
            Ok(document) => {
                let ghost added = document@;
                documents.push(document);
                assert(json::views(documents@) =~= earlier.push(added));
            },
            Err(error) => {
                proof {
                    lemma_encoding_fails(expressions, index + 1, error@);
                }
                return Err(error);
            },
        }
        index += 1;
    }
    assert(expressions.take(expressions.len() as int) =~= expressions);
    Ok(documents)
}

/// A reason against the first expressions of a list is the reason against all
/// of it.
proof fn lemma_encoding_fails(
    expressions: Seq<model::ExprV>,
    length: int,
    reason: FilterExpressionErrorKind,
)
    requires
        0 <= length <= expressions.len(),
        wire_model::encoded_all(expressions.take(length)) == Err::<
            Seq<json::JsonV>,
            FilterExpressionErrorKind,
        >(reason),
    ensures
        wire_model::encoded_all(expressions) == Err::<Seq<json::JsonV>, FilterExpressionErrorKind>(
            reason,
        ),
    decreases expressions.len() - length,
{
    if length < expressions.len() {
        assert(expressions.take(length + 1).drop_last() =~= expressions.take(length));
        lemma_encoding_fails(expressions, length + 1, reason);
    } else {
        assert(expressions.take(length) =~= expressions);
    }
}

impl<T: Filterable> FilterExpr<T> {
    /// Write the expression as a version 1 envelope. What is read back from one
    /// that keeps the complexity limits accepts the same values.
    ///
    /// # Errors
    ///
    /// The reason against the first check that fails: the targets, the
    /// fields' names, the fields and literals, and what
    /// [`ExprData::encode`] refuses.
    pub fn encode(&self) -> (document: Result<Json, FilterExpressionError>)
        ensures
            document_view(document) == wire_model::enveloped::<T>(self@),
            document is Ok && wire_model::envelope_within_limits(document->Ok_0@)
                ==> wire_model::decoded::<T>(document->Ok_0@) is Ok && forall|candidate: &T|
                #[trigger]
                model::accepts(wire_model::decoded::<T>(document->Ok_0@)->Ok_0, candidate)
                    == model::accepts(self@, candidate),
    {
        if !matching::valid_wire_name(T::filter_target()) {
            return Err(FilterExpressionError::new(FilterExpressionErrorKind::InvalidTarget));
        }
        if let Err(error) = matching::validate_wire_targets(
            self.data(),
            Some(T::filter_target()),
        ) {
            return Err(error);
        }
        if let Err(error) = matching::validate_wire_fields(self.data()) {
            return Err(error);
        }
        let mut data = self.data().copy();
        if let Err(error) = matching::validate_expression::<T>(&mut data) {
            return Err(error);
        }
        if !matching::expression_is_resolved(&data) {
            return Err(FilterExpressionError::new(FilterExpressionErrorKind::InvalidStructure));
        }
        let document = match data.encode() {
            Ok(document) => document,
            Err(error) => return Err(error),
        };
        let ghost nested = document@;
        let mut members: Vec<Member> = Vec::new();
        members.push(json::member("version", Json::Number(Number::Unsigned(VERSION as u128))));
        members.push(json::member("target", json::string(T::filter_target())));
        members.push(json::member("expr", document));
        assert(json::member_views(members@) =~= seq![
            wire_model::named("version"@, json::JsonV::Number(Number::Unsigned(1))),
            wire_model::named("target"@, json::JsonV::String(T::target_name())),
            wire_model::named("expr"@, nested),
        ]);
        let written = json::object(members);
        proof {
            if wire_model::envelope_within_limits(written@) {
                round_trip::law_decoding_undoes_encoding::<T>(self@, written@);
                assert forall|candidate: &T| #[trigger]
                    model::accepts(wire_model::decoded::<T>(written@)->Ok_0, candidate)
                        == model::accepts(self@, candidate) by {
                    round_trip::law_reading_back_keeps_what_is_accepted(
                        self@,
                        written@,
                        candidate,
                    );
                }
            }
        }
        Ok(written)
    }
}

} // verus!
