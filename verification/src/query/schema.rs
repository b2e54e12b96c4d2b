//! Schema metadata for portable filter expressions.
//!
//! A schema closes targets, fields, operators, relations and the families of
//! JSON values. Decoding remains authoritative for the bounds of integers, for
//! whether patterns compile, and for the complexity limits.

use vstd::prelude::*;
use vstd::string::*;

use crate::json;
use crate::json::Json;
use crate::json::Member;
use crate::json::Number;
use crate::query::envelope;
use crate::query::filterable::Filterable;
use crate::query::grammar;
use crate::query::grammar::RelationQuantifier;
use crate::query::grammar::SetOperator;
use crate::query::grammar::TextOperator;
use crate::query::grammar::MAX_EXPRESSION_NODES;
use crate::query::grammar::MAX_SET_VALUES;
use crate::query::grammar::VERSION;
use crate::query::wire_model;
use crate::text;
use crate::text::sort_set;
use crate::text::str_eq;
use crate::text::to_chars;

verus! {

/// The value or relation family behind one filter field.
pub enum FilterValueSchema {
    /// Strict UTF-8 text.
    Text,
    /// A boolean.
    Bool,
    /// A signed integer encoded as decimal text.
    Signed,
    /// An unsigned integer encoded as decimal text.
    Unsigned,
    /// A stable closed string vocabulary.
    Enum(Vec<&'static str>),
    /// A to-many relation, to the target at a position of the catalog.
    Many(usize),
    /// A to-one relation, to the target at a position of the catalog.
    One(usize),
}

/// A family in contracts.
#[verifier::ext_equal]
pub ghost enum FamilyV {
    Text,
    Bool,
    Signed,
    Unsigned,
    Enum(Seq<Seq<char>>),
    Many(int),
    One(int),
}

impl FilterValueSchema {
    /// The family in contracts.
    pub open spec fn view(&self) -> FamilyV {
        match self {
            FilterValueSchema::Text => FamilyV::Text,
            FilterValueSchema::Bool => FamilyV::Bool,
            FilterValueSchema::Signed => FamilyV::Signed,
            FilterValueSchema::Unsigned => FamilyV::Unsigned,
            FilterValueSchema::Enum(values) => FamilyV::Enum(text::slices(values@)),
            FilterValueSchema::Many(related) => FamilyV::Many(*related as int),
            FilterValueSchema::One(related) => FamilyV::One(*related as int),
        }
    }
}

/// One accepted field and the predicates valid for it.
pub struct FilterFieldSchema {
    name: &'static str,
    kind: FilterValueSchema,
}

/// A field in contracts.
#[verifier::ext_equal]
pub ghost struct FieldV {
    pub name: Seq<char>,
    pub kind: FamilyV,
}

impl FilterFieldSchema {
    /// The field in contracts.
    pub closed spec fn view(&self) -> FieldV {
        FieldV { name: self.name@, kind: self.kind@ }
    }

    /// Describe a field.
    pub fn new(name: &'static str, kind: FilterValueSchema) -> (field: Self)
        ensures
            field@ == (FieldV { name: name@, kind: kind@ }),
    {
        FilterFieldSchema { name, kind }
    }
}

/// One target and every field its decoder accepts.
pub struct FilterSchemaDescriptor {
    target: &'static str,
    fields: Vec<FilterFieldSchema>,
}

/// A target in contracts.
#[verifier::ext_equal]
pub ghost struct DescriptorV {
    pub target: Seq<char>,
    pub fields: Seq<FieldV>,
}

/// The views of a list of fields.
pub open spec fn field_views(fields: Seq<FilterFieldSchema>) -> Seq<FieldV> {
    fields.map_values(|field: FilterFieldSchema| field@)
}

/// The views of a catalog of targets.
pub open spec fn catalog_views(catalog: Seq<FilterSchemaDescriptor>) -> Seq<DescriptorV> {
    catalog.map_values(|descriptor: FilterSchemaDescriptor| descriptor@)
}

impl FilterSchemaDescriptor {
    /// The target in contracts.
    pub closed spec fn view(&self) -> DescriptorV {
        DescriptorV { target: self.target@, fields: field_views(self.fields@) }
    }

    /// Describe a target.
    pub fn new(target: &'static str, fields: Vec<FilterFieldSchema>) -> (descriptor: Self)
        ensures
            descriptor@ == (DescriptorV { target: target@, fields: field_views(fields@) }),
    {
        FilterSchemaDescriptor { target, fields }
    }

    /// Reuse a catalog of fields under another target's name.
    pub fn retarget(self, target: &'static str) -> (descriptor: Self)
        ensures
            descriptor@ == (DescriptorV { target: target@, fields: self@.fields }),
    {
        FilterSchemaDescriptor { target, fields: self.fields }
    }

    /// Add a field.
    pub fn with_field(self, field: FilterFieldSchema) -> (descriptor: Self)
        ensures
            descriptor@ == (DescriptorV {
                target: self@.target,
                fields: self@.fields.push(field@),
            }),
    {
        let mut fields = self.fields;
        let ghost before = field_views(fields@);
        fields.push(field);
        assert(field_views(fields@) =~= before.push(field@));
        FilterSchemaDescriptor { target: self.target, fields }
    }
}

/// Whether every relation of a catalog leads to one of its targets.
pub open spec fn closed_catalog(catalog: Seq<DescriptorV>) -> bool {
    forall|i: int, j: int|
        0 <= i < catalog.len() && 0 <= j < catalog[i].fields.len() ==> match (
        #[trigger] catalog[i].fields[j]).kind {
            FamilyV::Many(related) => 0 <= related < catalog.len(),
            FamilyV::One(related) => 0 <= related < catalog.len(),
            _ => true,
        }
}

/// A filter target whose portable expression grammar can be described.
pub trait FilterSchema: Filterable {
    /// The catalog in contracts.
    spec fn described() -> Seq<DescriptorV>;

    /// The closed field grammar of the target, followed by the targets that
    /// its relations lead to.
    fn describe() -> (catalog: Vec<FilterSchemaDescriptor>)
        ensures
            catalog_views(catalog@) == Self::described(),
            Self::described().len() > 0,
            Self::described()[0].target == Self::target_name(),
            closed_catalog(Self::described()),
    ;
}

/// The catalog of one target.
pub fn filter_schema<T: FilterSchema>() -> (catalog: Vec<FilterSchemaDescriptor>)
    ensures
        catalog_views(catalog@) == T::described(),
        T::described().len() > 0,
        T::described()[0].target == T::target_name(),
        closed_catalog(T::described()),
{
    T::describe()
}

/// The schema of objects with exactly the given members.
pub open spec fn object_schema(
    properties: Seq<json::MemberV>,
    required: Seq<Seq<char>>,
) -> json::JsonV {
    json::JsonV::Object(
        seq![
            wire_model::named("additionalProperties"@, json::JsonV::Bool(false)),
            wire_model::named("properties"@, json::JsonV::Object(properties)),
            wire_model::named("required"@, text_array(required)),
            wire_model::named("type"@, json::JsonV::String("object"@)),
        ],
    )
}

/// An array of texts.
pub open spec fn text_array(values: Seq<Seq<char>>) -> json::JsonV {
    json::JsonV::Array(values.map_values(|value: Seq<char>| json::JsonV::String(value)))
}

/// The schema of one text.
pub open spec fn constant_schema(value: Seq<char>) -> json::JsonV {
    json::JsonV::Object(
        seq![
            wire_model::named("const"@, json::JsonV::String(value)),
            wire_model::named("type"@, json::JsonV::String("string"@)),
        ],
    )
}

/// The schema of a closed vocabulary.
pub open spec fn vocabulary_schema(values: Seq<Seq<char>>) -> json::JsonV {
    json::JsonV::Object(
        seq![
            wire_model::named("enum"@, text_array(text::sorted_set(values))),
            wire_model::named("type"@, json::JsonV::String("string"@)),
        ],
    )
}

/// The schema of values of one JSON type.
pub open spec fn type_schema(name: Seq<char>) -> json::JsonV {
    json::JsonV::Object(seq![wire_model::named("type"@, json::JsonV::String(name))])
}

/// The schema of decimal text.
pub open spec fn pattern_schema(pattern: Seq<char>) -> json::JsonV {
    json::JsonV::Object(
        seq![
            wire_model::named("pattern"@, json::JsonV::String(pattern)),
            wire_model::named("type"@, json::JsonV::String("string"@)),
        ],
    )
}

/// The schema of a set of literals.
pub open spec fn set_schema(item: json::JsonV) -> json::JsonV {
    json::JsonV::Object(
        seq![
            wire_model::named("items"@, item),
            wire_model::named(
                "maxItems"@,
                json::JsonV::Number(Number::Unsigned(MAX_SET_VALUES as u128)),
            ),
            wire_model::named("type"@, json::JsonV::String("array"@)),
        ],
    )
}

/// The schema of the branches of a junction.
pub open spec fn branches_schema(expression: json::JsonV) -> json::JsonV {
    json::JsonV::Object(
        seq![
            wire_model::named("items"@, expression),
            wire_model::named(
                "maxItems"@,
                json::JsonV::Number(Number::Unsigned(MAX_EXPRESSION_NODES as u128)),
            ),
            wire_model::named("minItems"@, json::JsonV::Number(Number::Unsigned(2))),
            wire_model::named("type"@, json::JsonV::String("array"@)),
        ],
    )
}

/// The name that a target's expression grammar is defined under.
pub open spec fn definition_name(target: Seq<char>) -> Seq<char> {
    "libtmux_filter_expr_"@ + target
}

/// A path without the slashes that it ends in.
pub open spec fn without_slashes(path: Seq<char>) -> Seq<char>
    decreases path.len(),
{
    if path.len() > 0 && path.last() == '/' {
        without_slashes(path.drop_last())
    } else {
        path
    }
}

/// A name as one segment of a JSON pointer: a tilde is written `~0` and a
/// slash `~1`.
pub open spec fn pointer_segment(name: Seq<char>) -> Seq<char>
    decreases name.len(),
{
    if name.len() == 0 {
        name
    } else {
        pointer_segment(name.drop_last()) + if name.last() == '~' {
            "~0"@
        } else if name.last() == '/' {
            "~1"@
        } else {
            seq![name.last()]
        }
    }
}

/// The reference to a target's expression grammar.
pub open spec fn reference(path: Seq<char>, target: Seq<char>) -> json::JsonV {
    json::JsonV::Object(
        seq![
            wire_model::named(
                "$ref"@,
                json::JsonV::String(
                    "#"@ + without_slashes(path) + "/"@ + pointer_segment(definition_name(target)),
                ),
            ),
        ],
    )
}

/// The names of the fields of one family, in order.
pub open spec fn family_names(fields: Seq<FieldV>, family: FamilyV) -> Seq<Seq<char>>
    decreases fields.len(),
{
    if fields.len() == 0 {
        Seq::empty()
    } else {
        let earlier = family_names(fields.drop_last(), family);
        if fields.last().kind == family {
            earlier.push(fields.last().name)
        } else {
            earlier
        }
    }
}

/// The schemas of the scalar tests of fields of one family: operators that take
/// one literal, and operators that take a set.
pub open spec fn scalar_variants(
    fields: Seq<Seq<char>>,
    operators: Seq<Seq<char>>,
    literal: json::JsonV,
) -> Seq<json::JsonV> {
    if fields.len() == 0 {
        Seq::empty()
    } else {
        seq![
            scalar_variant(fields, operators, literal),
            scalar_variant(fields, membership_operators(), set_schema(literal)),
        ]
    }
}

/// The schema of scalar tests with the given operators and literals.
pub open spec fn scalar_variant(
    fields: Seq<Seq<char>>,
    operators: Seq<Seq<char>>,
    value: json::JsonV,
) -> json::JsonV {
    object_schema(
        seq![
            wire_model::named("field"@, vocabulary_schema(fields)),
            wire_model::named("op"@, vocabulary_schema(operators)),
            wire_model::named("value"@, value),
        ],
        seq!["op"@, "field"@, "value"@],
    )
}

/// The schema of a relation.
pub open spec fn relation_variant(
    path: Seq<char>,
    field: Seq<char>,
    quantifiers: Seq<Seq<char>>,
    related: Seq<char>,
) -> json::JsonV {
    object_schema(
        seq![
            wire_model::named("expr"@, reference(path, related)),
            wire_model::named("field"@, constant_schema(field)),
            wire_model::named("op"@, constant_schema("relation"@)),
            wire_model::named("quantifier"@, vocabulary_schema(quantifiers)),
        ],
        seq!["op"@, "field"@, "quantifier"@, "expr"@],
    )
}

/// The operators that compare text against one literal.
pub open spec fn text_operators() -> Seq<Seq<char>> {
    seq![
        TextOperator::Eq.spelling(),
        TextOperator::EqIgnoreCase.spelling(),
        TextOperator::Contains.spelling(),
        TextOperator::ContainsIgnoreCase.spelling(),
        TextOperator::StartsWith.spelling(),
        TextOperator::StartsWithIgnoreCase.spelling(),
        TextOperator::EndsWith.spelling(),
        TextOperator::EndsWithIgnoreCase.spelling(),
        TextOperator::Regex.spelling(),
        TextOperator::RegexIgnoreCase.spelling(),
    ]
}

/// The operator that every family takes with one literal.
pub open spec fn equality_operators() -> Seq<Seq<char>> {
    seq![SetOperator::Eq.spelling()]
}

/// The operators that compare an integer against one literal.
pub open spec fn comparison_operators() -> Seq<Seq<char>> {
    seq![
        SetOperator::Eq.spelling(),
        SetOperator::Lt.spelling(),
        SetOperator::Lte.spelling(),
        SetOperator::Gt.spelling(),
        SetOperator::Gte.spelling(),
    ]
}

/// The operators that take a set of literals.
pub open spec fn membership_operators() -> Seq<Seq<char>> {
    seq![SetOperator::In.spelling(), SetOperator::NotIn.spelling()]
}

/// The quantifiers of a to-many relation.
pub open spec fn many_quantifiers() -> Seq<Seq<char>> {
    seq![
        RelationQuantifier::Any.spelling(),
        RelationQuantifier::All.spelling(),
        RelationQuantifier::NoneOf.spelling(),
    ]
}

/// The quantifier of a to-one relation.
pub open spec fn one_quantifiers() -> Seq<Seq<char>> {
    seq![RelationQuantifier::Is.spelling()]
}

/// The schemas that one field of its own vocabulary or a relation adds.
pub open spec fn field_variants(
    path: Seq<char>,
    catalog: Seq<DescriptorV>,
    field: FieldV,
) -> Seq<json::JsonV> {
    match field.kind {
        FamilyV::Enum(values) => if values.len() == 0 {
            Seq::empty()
        } else {
            scalar_variants(seq![field.name], equality_operators(), vocabulary_schema(values))
        },
        FamilyV::Many(related) => seq![
            relation_variant(path, field.name, many_quantifiers(), catalog[related].target),
        ],
        FamilyV::One(related) => seq![
            relation_variant(path, field.name, one_quantifiers(), catalog[related].target),
        ],
        _ => Seq::empty(),
    }
}

/// The schemas that the fields add, in order.
pub open spec fn all_field_variants(
    path: Seq<char>,
    catalog: Seq<DescriptorV>,
    fields: Seq<FieldV>,
) -> Seq<json::JsonV>
    decreases fields.len(),
{
    if fields.len() == 0 {
        Seq::empty()
    } else {
        all_field_variants(path, catalog, fields.drop_last()) + field_variants(
            path,
            catalog,
            fields.last(),
        )
    }
}

/// The schemas of the expressions over a target: junctions, negations, scalar
/// tests family by family, and vocabularies and relations field by field.
pub open spec fn expression_variants(
    path: Seq<char>,
    catalog: Seq<DescriptorV>,
    descriptor: DescriptorV,
) -> Seq<json::JsonV> {
    connective_variants(path, descriptor.target) + family_variants(descriptor.fields)
        + all_field_variants(path, catalog, descriptor.fields)
}

/// The schemas of junctions and negations over a target.
pub open spec fn connective_variants(path: Seq<char>, target: Seq<char>) -> Seq<json::JsonV> {
    seq![
        object_schema(
            seq![
                wire_model::named("args"@, branches_schema(reference(path, target))),
                wire_model::named("op"@, vocabulary_schema(seq!["and"@, "or"@])),
            ],
            seq!["op"@, "args"@],
        ),
        object_schema(
            seq![
                wire_model::named("expr"@, reference(path, target)),
                wire_model::named("op"@, constant_schema("not"@)),
            ],
            seq!["op"@, "expr"@],
        ),
    ]
}

/// The schemas of the scalar tests of texts, booleans and integers.
pub open spec fn family_variants(fields: Seq<FieldV>) -> Seq<json::JsonV> {
    scalar_variants(
        family_names(fields, FamilyV::Text),
        text_operators(),
        type_schema("string"@),
    ) + scalar_variants(
        family_names(fields, FamilyV::Bool),
        equality_operators(),
        type_schema("boolean"@),
    ) + scalar_variants(
        family_names(fields, FamilyV::Signed),
        comparison_operators(),
        pattern_schema("^-?(0|[1-9][0-9]*)$"@),
    ) + scalar_variants(
        family_names(fields, FamilyV::Unsigned),
        comparison_operators(),
        pattern_schema("^(0|[1-9][0-9]*)$"@),
    )
}

/// The schema of the expressions over a target.
pub open spec fn expression_schema(
    path: Seq<char>,
    catalog: Seq<DescriptorV>,
    descriptor: DescriptorV,
) -> json::JsonV {
    json::JsonV::Object(
        seq![
            wire_model::named(
                "oneOf"@,
                json::JsonV::Array(expression_variants(path, catalog, descriptor)),
            ),
        ],
    )
}

/// The schema of envelopes over a target.
pub open spec fn envelope_schema(path: Seq<char>, target: Seq<char>) -> json::JsonV {
    object_schema(
        seq![
            wire_model::named("expr"@, reference(path, target)),
            wire_model::named("target"@, constant_schema(target)),
            wire_model::named(
                "version"@,
                json::JsonV::Object(
                    seq![
                        wire_model::named(
                            "const"@,
                            json::JsonV::Number(Number::Unsigned(VERSION as u128)),
                        ),
                        wire_model::named("type"@, json::JsonV::String("integer"@)),
                    ],
                ),
            ),
        ],
        seq!["version"@, "target"@, "expr"@],
    )
}

/// Write an array of texts.
fn write_texts(values: &[&str]) -> (document: Json)
    ensures
        document@ == text_array(text::slices(values@)),
{
    let document = json::strings(values);
    assert(document@->Array_0 =~= text::slices(values@).map_values(
        |value: Seq<char>| json::JsonV::String(value),
    ));
    document
}

/// Write the schema of objects with exactly the given members.
fn write_object(properties: Vec<Member>, required: &[&str]) -> (schema: Json)
    ensures
        schema@ == object_schema(json::member_views(properties@), text::slices(required@)),
{
    let ghost listed = json::member_views(properties@);
    let mut members: Vec<Member> = Vec::new();
    members.push(json::member("additionalProperties", Json::Bool(false)));
    members.push(json::member("properties", json::object(properties)));
    members.push(json::member("required", write_texts(required)));
    members.push(json::member("type", json::string("object")));
    assert(json::member_views(members@) =~= seq![
        wire_model::named("additionalProperties"@, json::JsonV::Bool(false)),
        wire_model::named("properties"@, json::JsonV::Object(listed)),
        wire_model::named("required"@, text_array(text::slices(required@))),
        wire_model::named("type"@, json::JsonV::String("object"@)),
    ]);
    json::object(members)
}

/// Write the schema of one text.
fn write_constant(value: &str) -> (schema: Json)
    ensures
        schema@ == constant_schema(value@),
{
    let mut members: Vec<Member> = Vec::new();
    members.push(json::member("const", json::string(value)));
    members.push(json::member("type", json::string("string")));
    assert(json::member_views(members@) =~= seq![
        wire_model::named("const"@, json::JsonV::String(value@)),
        wire_model::named("type"@, json::JsonV::String("string"@)),
    ]);
    json::object(members)
}

/// Write the schema of a closed vocabulary.
fn write_vocabulary(values: &[&str]) -> (schema: Json)
    ensures
        schema@ == vocabulary_schema(text::slices(values@)),
{
    let mut members: Vec<Member> = Vec::new();
    members.push(json::member("enum", write_texts(sort_set(values).as_slice())));
    members.push(json::member("type", json::string("string")));
    assert(json::member_views(members@) =~= seq![
        wire_model::named("enum"@, text_array(text::sorted_set(text::slices(values@)))),
        wire_model::named("type"@, json::JsonV::String("string"@)),
    ]);
    json::object(members)
}

/// Write the schema of values of one JSON type.
fn write_type(name: &str) -> (schema: Json)
    ensures
        schema@ == type_schema(name@),
{
    let mut members: Vec<Member> = Vec::new();
    members.push(json::member("type", json::string(name)));
    assert(json::member_views(members@) =~= seq![
        wire_model::named("type"@, json::JsonV::String(name@)),
    ]);
    json::object(members)
}

/// Write the schema of decimal text.
fn write_pattern(pattern: &str) -> (schema: Json)
    ensures
        schema@ == pattern_schema(pattern@),
{
    let mut members: Vec<Member> = Vec::new();
    members.push(json::member("pattern", json::string(pattern)));
    members.push(json::member("type", json::string("string")));
    assert(json::member_views(members@) =~= seq![
        wire_model::named("pattern"@, json::JsonV::String(pattern@)),
        wire_model::named("type"@, json::JsonV::String("string"@)),
    ]);
    json::object(members)
}

/// Write the schema of a set of literals.
fn write_set(item: Json) -> (schema: Json)
    ensures
        schema@ == set_schema(item@),
{
    let ghost literal = item@;
    let mut members: Vec<Member> = Vec::new();
    members.push(json::member("items", item));
    members.push(json::member("maxItems", Json::Number(Number::Unsigned(MAX_SET_VALUES as u128))));
    members.push(json::member("type", json::string("array")));
    assert(json::member_views(members@) =~= seq![
        wire_model::named("items"@, literal),
        wire_model::named("maxItems"@, json::JsonV::Number(Number::Unsigned(MAX_SET_VALUES as u128))),
        wire_model::named("type"@, json::JsonV::String("array"@)),
    ]);
    json::object(members)
}

/// Write the schema of the branches of a junction.
fn write_branches(expression: Json) -> (schema: Json)
    ensures
        schema@ == branches_schema(expression@),
{
    let ghost branch = expression@;
    let mut members: Vec<Member> = Vec::new();
    members.push(json::member("items", expression));
    members.push(json::member("maxItems", Json::Number(Number::Unsigned(MAX_EXPRESSION_NODES as u128))));
    members.push(json::member("minItems", Json::Number(Number::Unsigned(2))));
    members.push(json::member("type", json::string("array")));
    assert(json::member_views(members@) =~= seq![
        wire_model::named("items"@, branch),
        wire_model::named("maxItems"@, json::JsonV::Number(Number::Unsigned(MAX_EXPRESSION_NODES as u128))),
        wire_model::named("minItems"@, json::JsonV::Number(Number::Unsigned(2))),
        wire_model::named("type"@, json::JsonV::String("array"@)),
    ]);
    json::object(members)
}

/// Write the name that a target's expression grammar is defined under.
pub fn write_definition_name(target: &str) -> (name: String)
    ensures
        name@ == definition_name(target@),
{
    let mut name = "libtmux_filter_expr_".to_owned();
    name.append(target);
    name
}

/// Write a name as one segment of a JSON pointer.
fn write_pointer_segment(name: &str) -> (segment: String)
    ensures
        segment@ == pointer_segment(name@),
{
    let characters = to_chars(name);
    let mut segment = String::new();
    let mut index: usize = 0;
    assert(segment@ =~= pointer_segment(name@.take(0)));
    while index < characters.len()
        invariant
            index <= characters@.len(),
            characters@ == name@,
            segment@ == pointer_segment(name@.take(index as int)),
        decreases characters@.len() - index,
    {
        proof {
            let longer = name@.take(index + 1);
            assert(longer.drop_last() =~= name@.take(index as int));
            assert(longer.last() == name@[index as int]);
        }
        if characters[index] == '~' {
            segment.append("~0");
        } else if characters[index] == '/' {
            segment.append("~1");
        } else {
            let character = name.substring_char(index, index + 1);
            assert(character@ =~= seq![name@[index as int]]);
            segment.append(character);
        }
        index += 1;
    }
    assert(name@.take(name@.len() as int) =~= name@);
    segment
}

/// Drop the slashes that a path ends in.
fn trim_slashes(path: &str) -> (trimmed: &str)
    ensures
        trimmed@ == without_slashes(path@),
{
    let characters = to_chars(path);
    let mut length: usize = characters.len();
    assert(path@.take(path@.len() as int) =~= path@);
    while length > 0 && characters[length - 1] == '/'
        invariant
            length <= characters@.len(),
            characters@ == path@,
            without_slashes(path@.take(length as int)) == without_slashes(path@),
        decreases length,
    {
        proof {
            let longer = path@.take(length as int);
            assert(longer.last() == path@[length - 1]);
            assert(longer.drop_last() =~= path@.take(length - 1));
        }
        length -= 1;
    }
    proof {
        let rest = path@.take(length as int);
        assert(length > 0 ==> rest.last() == path@[length - 1]);
        assert(path@.subrange(0, length as int) =~= rest);
    }
    path.substring_char(0, length)
}

/// Write the reference to a target's expression grammar.
fn write_reference(path: &str, target: &str) -> (schema: Json)
    ensures
        schema@ == reference(path@, target@),
{
    let mut pointer = "#".to_owned();
    pointer.append(trim_slashes(path));
    pointer.append("/");
    pointer.append(write_pointer_segment(write_definition_name(target).as_str()).as_str());
    let ghost written = pointer@;
    let mut members: Vec<Member> = Vec::new();
    members.push(json::member("$ref", Json::String(pointer)));
    assert(json::member_views(members@) =~= seq![
        wire_model::named("$ref"@, json::JsonV::String(written)),
    ]);
    json::object(members)
}

/// The names of the fields of one scalar family, in order.
fn list_family(fields: &Vec<FilterFieldSchema>, family: &FilterValueSchema) -> (names: Vec<
    &'static str,
>)
    requires
        family is Text || family is Bool || family is Signed || family is Unsigned,
    ensures
        text::slices(names@) == family_names(field_views(fields@), family@),
{
    let ghost listed = field_views(fields@);
    let mut names: Vec<&'static str> = Vec::new();
    let mut index: usize = 0;
    assert(text::slices(names@) =~= family_names(listed.take(0), family@));
    while index < fields.len()
        invariant
            index <= fields@.len(),
            listed == field_views(fields@),
            family is Text || family is Bool || family is Signed || family is Unsigned,
            text::slices(names@) == family_names(listed.take(index as int), family@),
        decreases fields@.len() - index,
    {
        let field = &fields[index];
        proof {
            let longer = listed.take(index + 1);
            assert(longer.drop_last() =~= listed.take(index as int));
            assert(longer.last() == field@);
        }
        let found = match (&field.kind, family) {
            (FilterValueSchema::Text, FilterValueSchema::Text) => true,
            (FilterValueSchema::Bool, FilterValueSchema::Bool) => true,
            (FilterValueSchema::Signed, FilterValueSchema::Signed) => true,
            (FilterValueSchema::Unsigned, FilterValueSchema::Unsigned) => true,
            _ => false,
        };
        if found {
            let ghost earlier = text::slices(names@);
            names.push(field.name);
            assert(text::slices(names@) =~= earlier.push(field.name@));
        }
        index += 1;
    }
    assert(listed.take(listed.len() as int) =~= listed);
    names
}

/// Write the schema of scalar tests with the given operators and literals.
fn write_scalar_variant(fields: &[&str], operators: &[&str], value: Json) -> (schema: Json)
    ensures
        schema@ == scalar_variant(text::slices(fields@), text::slices(operators@), value@),
{
    let ghost literal = value@;
    let mut properties: Vec<Member> = Vec::new();
    properties.push(json::member("field", write_vocabulary(fields)));
    properties.push(json::member("op", write_vocabulary(operators)));
    properties.push(json::member("value", value));
    assert(json::member_views(properties@) =~= seq![
        wire_model::named("field"@, vocabulary_schema(text::slices(fields@))),
        wire_model::named("op"@, vocabulary_schema(text::slices(operators@))),
        wire_model::named("value"@, literal),
    ]);
    let required = ["op", "field", "value"];
    assert(text::slices(required@) =~= seq!["op"@, "field"@, "value"@]);
    write_object(properties, required.as_slice())
}

/// Add the schemas of the scalar tests of fields of one family.
fn add_scalar_variants(
    variants: &mut Vec<Json>,
    fields: &[&str],
    operators: &[&str],
    literal: Json,
)
    ensures
        json::views(final(variants)@) == json::views(old(variants)@) + scalar_variants(
            text::slices(fields@),
            text::slices(operators@),
            literal@,
        ),
{
    let ghost before = json::views(variants@);
    if fields.len() == 0 {
        assert(before + Seq::<json::JsonV>::empty() =~= before);
        return ;
    }
    let single = write_scalar_variant(fields, operators, literal.copy());
    let members = [SetOperator::In.label(), SetOperator::NotIn.label()];
    assert(text::slices(members@) =~= membership_operators());
    let set = write_scalar_variant(fields, members.as_slice(), write_set(literal));
    let ghost added = seq![single@, set@];
    variants.push(single);
    variants.push(set);
    assert(json::views(variants@) =~= before + added);
}

/// Write the schema of a relation.
fn write_relation(path: &str, field: &str, quantifiers: &[&str], related: &str) -> (schema: Json)
    ensures
        schema@ == relation_variant(path@, field@, text::slices(quantifiers@), related@),
{
    let mut properties: Vec<Member> = Vec::new();
    properties.push(json::member("expr", write_reference(path, related)));
    properties.push(json::member("field", write_constant(field)));
    properties.push(json::member("op", write_constant("relation")));
    properties.push(json::member("quantifier", write_vocabulary(quantifiers)));
    assert(json::member_views(properties@) =~= seq![
        wire_model::named("expr"@, reference(path@, related@)),
        wire_model::named("field"@, constant_schema(field@)),
        wire_model::named("op"@, constant_schema("relation"@)),
        wire_model::named("quantifier"@, vocabulary_schema(text::slices(quantifiers@))),
    ]);
    let required = ["op", "field", "quantifier", "expr"];
    assert(text::slices(required@) =~= seq!["op"@, "field"@, "quantifier"@, "expr"@]);
    write_object(properties, required.as_slice())
}

/// Add the schemas of one field of its own vocabulary or a relation.
fn add_field_variants(
    variants: &mut Vec<Json>,
    path: &str,
    catalog: &Vec<FilterSchemaDescriptor>,
    field: &FilterFieldSchema,
)
    requires
        match field@.kind {
            FamilyV::Many(related) => 0 <= related < catalog@.len(),
            FamilyV::One(related) => 0 <= related < catalog@.len(),
            _ => true,
        },
    ensures
        json::views(final(variants)@) == json::views(old(variants)@) + field_variants(
            path@,
            catalog_views(catalog@),
            field@,
        ),
{
    let ghost before = json::views(variants@);
    match &field.kind {
        FilterValueSchema::Enum(values) => {
            if values.len() == 0 {
                assert(before + Seq::<json::JsonV>::empty() =~= before);
                return ;
            }
            let names = [field.name];
            assert(text::slices(names@) =~= seq![field.name@]);
            let operators = [SetOperator::Eq.label()];
            assert(text::slices(operators@) =~= equality_operators());
            add_scalar_variants(
                variants,
                names.as_slice(),
                operators.as_slice(),
                write_vocabulary(values.as_slice()),
            );
        },
        FilterValueSchema::Many(related) => {
            assert(catalog_views(catalog@)[*related as int] == catalog@[*related as int]@);
            let quantifiers = [
                RelationQuantifier::Any.label(),
                RelationQuantifier::All.label(),
                RelationQuantifier::NoneOf.label(),
            ];
            assert(text::slices(quantifiers@) =~= many_quantifiers());
            let relation = write_relation(
                path,
                field.name,
                quantifiers.as_slice(),
                catalog[*related].target,
            );
            let ghost added = seq![relation@];
            variants.push(relation);
            assert(json::views(variants@) =~= before + added);
        },
        FilterValueSchema::One(related) => {
            assert(catalog_views(catalog@)[*related as int] == catalog@[*related as int]@);
            let quantifiers = [RelationQuantifier::Is.label()];
            assert(text::slices(quantifiers@) =~= one_quantifiers());
            let relation = write_relation(
                path,
                field.name,
                quantifiers.as_slice(),
                catalog[*related].target,
            );
            let ghost added = seq![relation@];
            variants.push(relation);
            assert(json::views(variants@) =~= before + added);
        },
        FilterValueSchema::Text
        | FilterValueSchema::Bool
        | FilterValueSchema::Signed
        | FilterValueSchema::Unsigned => {
            assert(before + Seq::<json::JsonV>::empty() =~= before);
        },
    }
}

/// Write the schemas of junctions and negations over a target.
fn write_connectives(path: &str, target: &str) -> (variants: Vec<Json>)
    ensures
        json::views(variants@) == connective_variants(path@, target@),
{
    let mut properties: Vec<Member> = Vec::new();
    let junctions = ["and", "or"];
    assert(text::slices(junctions@) =~= seq!["and"@, "or"@]);
    properties.push(json::member("args", write_branches(write_reference(path, target))));
    properties.push(json::member("op", write_vocabulary(junctions.as_slice())));
    assert(json::member_views(properties@) =~= seq![
        wire_model::named("args"@, branches_schema(reference(path@, target@))),
        wire_model::named("op"@, vocabulary_schema(seq!["and"@, "or"@])),
    ]);
    let required = ["op", "args"];
    assert(text::slices(required@) =~= seq!["op"@, "args"@]);
    let junction = write_object(properties, required.as_slice());

    let mut nested: Vec<Member> = Vec::new();
    nested.push(json::member("expr", write_reference(path, target)));
    nested.push(json::member("op", write_constant("not")));
    assert(json::member_views(nested@) =~= seq![
        wire_model::named("expr"@, reference(path@, target@)),
        wire_model::named("op"@, constant_schema("not"@)),
    ]);
    let nested_required = ["op", "expr"];
    assert(text::slices(nested_required@) =~= seq!["op"@, "expr"@]);
    let negation = write_object(nested, nested_required.as_slice());
    let ghost connectives = seq![junction@, negation@];
    let mut variants: Vec<Json> = Vec::new();
    variants.push(junction);
    variants.push(negation);
    assert(json::views(variants@) =~= connectives);
    variants
}

/// Add the schemas of the scalar tests of texts, booleans and integers.
fn add_family_variants(variants: &mut Vec<Json>, fields: &Vec<FilterFieldSchema>)
    ensures
        json::views(final(variants)@) == json::views(old(variants)@) + family_variants(
            field_views(fields@),
        ),
{
    let ghost before = json::views(variants@);
    let text_labels = [
        TextOperator::Eq.label(),
        TextOperator::EqIgnoreCase.label(),
        TextOperator::Contains.label(),
        TextOperator::ContainsIgnoreCase.label(),
        TextOperator::StartsWith.label(),
        TextOperator::StartsWithIgnoreCase.label(),
        TextOperator::EndsWith.label(),
        TextOperator::EndsWithIgnoreCase.label(),
        TextOperator::Regex.label(),
        TextOperator::RegexIgnoreCase.label(),
    ];
    assert(text::slices(text_labels@) =~= text_operators());
    add_scalar_variants(
        variants,
        list_family(fields, &FilterValueSchema::Text).as_slice(),
        text_labels.as_slice(),
        write_type("string"),
    );

    let equality_labels = [SetOperator::Eq.label()];
    assert(text::slices(equality_labels@) =~= equality_operators());
    add_scalar_variants(
        variants,
        list_family(fields, &FilterValueSchema::Bool).as_slice(),
        equality_labels.as_slice(),
        write_type("boolean"),
    );

    let comparison_labels = [
        SetOperator::Eq.label(),
        SetOperator::Lt.label(),
        SetOperator::Lte.label(),
        SetOperator::Gt.label(),
        SetOperator::Gte.label(),
    ];
    assert(text::slices(comparison_labels@) =~= comparison_operators());
    add_scalar_variants(
        variants,
        list_family(fields, &FilterValueSchema::Signed).as_slice(),
        comparison_labels.as_slice(),
        write_pattern("^-?(0|[1-9][0-9]*)$"),
    );
    add_scalar_variants(
        variants,
        list_family(fields, &FilterValueSchema::Unsigned).as_slice(),
        comparison_labels.as_slice(),
        write_pattern("^(0|[1-9][0-9]*)$"),
    );
    assert(json::views(variants@) =~= before + family_variants(field_views(fields@)));
}

/// Add the schemas of the fields of a target, field by field.
fn add_all_field_variants(
    variants: &mut Vec<Json>,
    path: &str,
    catalog: &Vec<FilterSchemaDescriptor>,
    position: usize,
)
    requires
        position < catalog@.len(),
        closed_catalog(catalog_views(catalog@)),
    ensures
        json::views(final(variants)@) == json::views(old(variants)@) + all_field_variants(
            path@,
            catalog_views(catalog@),
            catalog_views(catalog@)[position as int].fields,
        ),
{
    let ghost targets = catalog_views(catalog@);
    let fields = &catalog[position].fields;
    let ghost listed = field_views(fields@);
    let ghost before = json::views(variants@);
    assert(targets[position as int] == catalog@[position as int]@);
    let mut index: usize = 0;
    assert(before + all_field_variants(path@, targets, listed.take(0)) =~= before);
    while index < fields.len()
        invariant
            index <= fields@.len(),
            position < catalog@.len(),
            closed_catalog(targets),
            targets == catalog_views(catalog@),
            listed == field_views(fields@),
            targets[position as int].fields == listed,
            before == json::views(old(variants)@),
            json::views(variants@) == before + all_field_variants(
                path@,
                targets,
                listed.take(index as int),
            ),
        decreases fields@.len() - index,
    {
        proof {
            let longer = listed.take(index + 1);
            assert(longer.drop_last() =~= listed.take(index as int));
            assert(longer.last() == fields@[index as int]@);
            assert(targets[position as int].fields[index as int] == fields@[index as int]@);
        }
        add_field_variants(variants, path, catalog, &fields[index]);
        assert(json::views(variants@) =~= before + all_field_variants(
            path@,
            targets,
            listed.take(index + 1),
        ));
        index += 1;
    }
    assert(listed.take(listed.len() as int) =~= listed);
}

/// Write the schema of the expressions over a target of a catalog.
pub fn write_expression_schema(
    path: &str,
    catalog: &Vec<FilterSchemaDescriptor>,
    position: usize,
) -> (schema: Json)
    requires
        position < catalog@.len(),
        closed_catalog(catalog_views(catalog@)),
    ensures
        schema@ == expression_schema(
            path@,
            catalog_views(catalog@),
            catalog_views(catalog@)[position as int],
        ),
{
    let ghost targets = catalog_views(catalog@);
    let descriptor = &catalog[position];
    assert(targets[position as int] == descriptor@);
    let mut variants = write_connectives(path, descriptor.target);
    add_family_variants(&mut variants, &descriptor.fields);
    add_all_field_variants(&mut variants, path, catalog, position);
    let ghost written = json::views(variants@);
    let mut members: Vec<Member> = Vec::new();
    members.push(json::member("oneOf", json::array(variants)));
    assert(json::member_views(members@) =~= seq![
        wire_model::named("oneOf"@, json::JsonV::Array(written)),
    ]);
    json::object(members)
}

/// Write the schema of envelopes over a target.
pub fn write_envelope_schema(path: &str, target: &str) -> (schema: Json)
    ensures
        schema@ == envelope_schema(path@, target@),
{
    let mut version: Vec<Member> = Vec::new();
    version.push(json::member("const", Json::Number(Number::Unsigned(VERSION as u128))));
    version.push(json::member("type", json::string("integer")));
    assert(json::member_views(version@) =~= seq![
        wire_model::named("const"@, json::JsonV::Number(Number::Unsigned(VERSION as u128))),
        wire_model::named("type"@, json::JsonV::String("integer"@)),
    ]);
    let version_schema = json::object(version);
    let ghost number = version_schema@;
    let mut properties: Vec<Member> = Vec::new();
    properties.push(json::member("expr", write_reference(path, target)));
    properties.push(json::member("target", write_constant(target)));
    properties.push(json::member("version", version_schema));
    assert(json::member_views(properties@) =~= seq![
        wire_model::named("expr"@, reference(path@, target@)),
        wire_model::named("target"@, constant_schema(target@)),
        wire_model::named("version"@, number),
    ]);
    let required = ["version", "target", "expr"];
    assert(text::slices(required@) =~= seq!["version"@, "target"@, "expr"@]);
    write_object(properties, required.as_slice())
}

/// Two grammars that would have to stand under one name.
#[derive(Clone, Copy, Debug)]
pub enum SchemaConflict {
    /// Two descriptions of one target differ.
    Conflicting(&'static str),
    /// A definition that was there before differs.
    Colliding(&'static str),
}

/// A conflict in contracts.
#[verifier::ext_equal]
pub ghost enum ConflictV {
    Conflicting(Seq<char>),
    Colliding(Seq<char>),
}

impl SchemaConflict {
    /// The conflict in contracts.
    pub open spec fn view(&self) -> ConflictV {
        match self {
            SchemaConflict::Conflicting(target) => ConflictV::Conflicting(target@),
            SchemaConflict::Colliding(target) => ConflictV::Colliding(target@),
        }
    }
}

/// The positions that the relations of a target lead to, in order.
pub open spec fn relations(fields: Seq<FieldV>) -> Seq<int>
    decreases fields.len(),
{
    if fields.len() == 0 {
        Seq::empty()
    } else {
        let earlier = relations(fields.drop_last());
        match fields.last().kind {
            FamilyV::Many(related) => earlier.push(related),
            FamilyV::One(related) => earlier.push(related),
            _ => earlier,
        }
    }
}

/// How many targets of a catalog were not seen yet.
pub open spec fn unseen(catalog: Seq<DescriptorV>, seen: Seq<json::MemberV>) -> nat
    decreases catalog.len(),
{
    if catalog.len() == 0 {
        0
    } else {
        unseen(catalog.drop_last(), seen) + if wire_model::position(seen, catalog.last().target)
            < seen.len() {
            0nat
        } else {
            1nat
        }
    }
}

/// The value found under a name.
pub open spec fn lookup(members: Seq<json::MemberV>, name: Seq<char>) -> Option<json::JsonV> {
    let found = wire_model::position(members, name);
    if 0 <= found < members.len() {
        Some(members[found].value)
    } else {
        None
    }
}

/// A name is found among the members with one more behind them where it was
/// found before, or where the new one has it.
proof fn lemma_lookup_push(members: Seq<json::MemberV>, member: json::MemberV, name: Seq<char>)
    ensures
        lookup(members.push(member), name) == if lookup(members, name) is Some {
            lookup(members, name)
        } else if member.name == name {
            Some(member.value)
        } else {
            None
        },
        lookup(members, name) is Some <==> wire_model::position(members, name) < members.len(),
{
    let longer = members.push(member);
    assert(longer.drop_last() =~= members);
    envelope::lemma_position_range(members, name);
    envelope::lemma_position_range(longer, name);
    let found = wire_model::position(members, name);
    if found < members.len() {
        assert(longer[found] == members[found]);
    }
}

/// Seeing one more target leaves no more targets unseen, and fewer where it was
/// one of the unseen.
pub proof fn lemma_unseen_push(
    catalog: Seq<DescriptorV>,
    seen: Seq<json::MemberV>,
    member: json::MemberV,
)
    ensures
        unseen(catalog, seen.push(member)) <= unseen(catalog, seen),
        forall|i: int|
            0 <= i < catalog.len() && (#[trigger] catalog[i]).target == member.name && lookup(
                seen,
                member.name,
            ) is None ==> unseen(catalog, seen.push(member)) < unseen(catalog, seen),
    decreases catalog.len(),
{
    if catalog.len() > 0 {
        let head = catalog.drop_last();
        lemma_unseen_push(head, seen, member);
        lemma_lookup_push(seen, member, catalog.last().target);
        lemma_lookup_push(seen.push(member), member, catalog.last().target);
        lemma_lookup_push(seen, member, member.name);
        assert forall|i: int|
            0 <= i < catalog.len() && (#[trigger] catalog[i]).target == member.name && lookup(
                seen,
                member.name,
            ) is None implies unseen(catalog, seen.push(member)) < unseen(catalog, seen) by {
            if i < head.len() {
                assert(head[i] == catalog[i]);
            }
        }
    }
}

/// The targets seen and the definitions that stand once the pending targets,
/// and what their relations lead to, are described. A target seen before has
/// to have the same grammar, and so has a definition that was there before.
pub open spec fn installed(
    path: Seq<char>,
    catalog: Seq<DescriptorV>,
    pending: Seq<int>,
    seen: Seq<json::MemberV>,
    definitions: Seq<json::MemberV>,
) -> Result<(Seq<json::MemberV>, Seq<json::MemberV>), ConflictV>
    decreases unseen(catalog, seen), pending.len(),
{
    if pending.len() == 0 || pending[0] < 0 || pending[0] >= catalog.len() {
        Ok((seen, definitions))
    } else {
        let descriptor = catalog[pending[0]];
        let rest = pending.skip(1);
        let schema = expression_schema(path, catalog, descriptor);
        let name = definition_name(descriptor.target);
        match lookup(seen, descriptor.target) {
            Some(known) => if known == schema {
                installed(path, catalog, rest, seen, definitions)
            } else {
                Err(ConflictV::Conflicting(descriptor.target))
            },
            None => {
                let member = wire_model::named(descriptor.target, schema);
                proof {
                    lemma_unseen_push(catalog, seen, member);
                }
                let next = relations(descriptor.fields) + rest;
                match lookup(definitions, name) {
                    Some(existing) => if existing == schema {
                        installed(path, catalog, next, seen.push(member), definitions)
                    } else {
                        Err(ConflictV::Colliding(descriptor.target))
                    },
                    None => installed(
                        path,
                        catalog,
                        next,
                        seen.push(member),
                        definitions.push(wire_model::named(name, schema)),
                    ),
                }
            },
        }
    }
}

/// Whether every position of a list lies in a catalog.
pub open spec fn positions_within(positions: Seq<int>, catalog: Seq<DescriptorV>) -> bool {
    forall|i: int| 0 <= i < positions.len() ==> 0 <= #[trigger] positions[i] < catalog.len()
}

/// The relations of a closed catalog lead into it.
proof fn lemma_relations_within(catalog: Seq<DescriptorV>, position: int, count: int)
    requires
        closed_catalog(catalog),
        0 <= position < catalog.len(),
        0 <= count <= catalog[position].fields.len(),
    ensures
        positions_within(relations(catalog[position].fields.take(count)), catalog),
    decreases count,
{
    if count > 0 {
        let fields = catalog[position].fields.take(count);
        lemma_relations_within(catalog, position, count - 1);
        assert(fields.drop_last() =~= catalog[position].fields.take(count - 1));
        assert(fields.last() == catalog[position].fields[count - 1]);
    }
}

/// The positions of a list in contracts.
pub open spec fn position_views(positions: Seq<usize>) -> Seq<int> {
    positions.map_values(|position: usize| position as int)
}

/// List the positions that the relations of a target lead to.
fn list_relations(fields: &Vec<FilterFieldSchema>) -> (positions: Vec<usize>)
    ensures
        position_views(positions@) == relations(field_views(fields@)),
{
    let ghost listed = field_views(fields@);
    let mut positions: Vec<usize> = Vec::new();
    let mut index: usize = 0;
    assert(position_views(positions@) =~= relations(listed.take(0)));
    while index < fields.len()
        invariant
            index <= fields@.len(),
            listed == field_views(fields@),
            position_views(positions@) == relations(listed.take(index as int)),
        decreases fields@.len() - index,
    {
        proof {
            let longer = listed.take(index + 1);
            assert(longer.drop_last() =~= listed.take(index as int));
            assert(longer.last() == fields@[index as int]@);
        }
        let ghost earlier = position_views(positions@);
        match &fields[index].kind {
            FilterValueSchema::Many(related) | FilterValueSchema::One(related) => {
                positions.push(*related);
                assert(position_views(positions@) =~= earlier.push(*related as int));
            },
            _ => {},
        }
        index += 1;
    }
    assert(listed.take(listed.len() as int) =~= listed);
    positions
}

/// Find the value under a name.
fn find<'a>(members: &'a Vec<Member>, name: &str) -> (value: Option<&'a Json>)
    ensures
        match value {
            Some(value) => lookup(json::member_views(members@), name@) == Some(value@),
            None => lookup(json::member_views(members@), name@) is None,
        },
{
    let ghost all = json::member_views(members@);
    let mut index: usize = 0;
    assert(lookup(all.take(0), name@) is None);
    while index < members.len()
        invariant
            index <= members@.len(),
            all == json::member_views(members@),
            lookup(all.take(index as int), name@) is None,
        decreases members@.len() - index,
    {
        proof {
            assert(all[index as int] == members@[index as int]@);
            assert(all.take(index + 1) =~= all.take(index as int).push(all[index as int]));
            lemma_lookup_push(all.take(index as int), all[index as int], name@);
        }
        if str_eq(members[index].name.as_str(), name) {
            proof {
                lemma_lookup_longer(all, index + 1, name@);
            }
            return Some(&members[index].value);
        }
        index += 1;
    }
    assert(all.take(all.len() as int) =~= all);
    None
}

/// What is found among the first members is found among all of them.
proof fn lemma_lookup_longer(members: Seq<json::MemberV>, length: int, name: Seq<char>)
    requires
        0 <= length <= members.len(),
        lookup(members.take(length), name) is Some,
    ensures
        lookup(members, name) == lookup(members.take(length), name),
    decreases members.len() - length,
{
    if length < members.len() {
        assert(members.take(length + 1) =~= members.take(length).push(members[length]));
        lemma_lookup_push(members.take(length), members[length], name);
        lemma_lookup_longer(members, length + 1, name);
    } else {
        assert(members.take(length) =~= members);
    }
}

/// Add the grammars of the first target of a catalog, and of every target that
/// relations lead to, to the definitions that stand already.
///
/// # Errors
///
/// The target whose grammar differs from another description of it, or from a
/// definition that stands under its name.
pub fn install_definitions(
    path: &str,
    catalog: &Vec<FilterSchemaDescriptor>,
    definitions: &mut Vec<Member>,
) -> (result: Result<(), SchemaConflict>)
    requires
        catalog@.len() > 0,
        closed_catalog(catalog_views(catalog@)),
    ensures
        match installed(
            path@,
            catalog_views(catalog@),
            seq![0],
            Seq::empty(),
            json::member_views(old(definitions)@),
        ) {
            Ok((_, standing)) => result is Ok && json::member_views(final(definitions)@)
                == standing,
            Err(conflict) => result is Err && result->Err_0@ == conflict,
        },
{
    let ghost targets = catalog_views(catalog@);
    let ghost outcome = installed(
        path@,
        targets,
        seq![0],
        Seq::empty(),
        json::member_views(definitions@),
    );
    let mut seen: Vec<Member> = Vec::new();
    let mut pending: Vec<usize> = Vec::new();
    pending.push(0);
    assert(position_views(pending@) =~= seq![0int]);
    assert(json::member_views(seen@) =~= Seq::empty());
    while pending.len() > 0
        invariant
            targets == catalog_views(catalog@),
            closed_catalog(targets),
            positions_within(position_views(pending@), targets),
            outcome == installed(
                path@,
                targets,
                seq![0],
                Seq::empty(),
                json::member_views(old(definitions)@),
            ),
            outcome == installed(
                path@,
                targets,
                position_views(pending@),
                json::member_views(seen@),
                json::member_views(definitions@),
            ),
        decreases unseen(targets, json::member_views(seen@)), pending@.len(),
    {
        let ghost waiting = position_views(pending@);
        let ghost known = json::member_views(seen@);
        let ghost standing = json::member_views(definitions@);
        assert(waiting[0] == pending@[0] as int);
        let position = pending.remove(0);
        assert(position_views(pending@) =~= waiting.skip(1));
        let descriptor = &catalog[position];
        assert(targets[position as int] == descriptor@);
        let schema = write_expression_schema(path, catalog, position);
        let name = write_definition_name(descriptor.target);
        if let Some(known) = find(&seen, descriptor.target) {
            if !known.same(&schema) {
                return Err(SchemaConflict::Conflicting(descriptor.target));
            }
            assert forall|i: int| 0 <= i < waiting.skip(1).len() implies 0
                <= #[trigger] waiting.skip(1)[i] < targets.len() by {
                assert(waiting.skip(1)[i] == waiting[i + 1]);
            }
            continue ;
        }
        let ghost written = schema@;
        let ghost member = wire_model::named(descriptor.target@, written);
        proof {
            lemma_unseen_push(targets, known, member);
            lemma_relations_within(
                targets,
                position as int,
                targets[position as int].fields.len() as int,
            );
            assert(targets[position as int].fields.take(
                targets[position as int].fields.len() as int,
            ) =~= targets[position as int].fields);
        }
        let mut next = list_relations(&descriptor.fields);
        let ghost led = position_views(next@);
        next.append(&mut pending);
        pending = next;
        assert(position_views(pending@) =~= led + waiting.skip(1));
        assert forall|i: int| 0 <= i < position_views(pending@).len() implies 0
            <= #[trigger] position_views(pending@)[i] < targets.len() by {
            if i < led.len() {
                assert(position_views(pending@)[i] == led[i]);
            } else {
                assert(position_views(pending@)[i] == waiting[i - led.len() + 1]);
            }
        }
        seen.push(json::member(descriptor.target, schema.copy()));
        assert(json::member_views(seen@) =~= known.push(member));
        let existing = match find(definitions, name.as_str()) {
            Some(existing) => Some(existing.same(&schema)),
            None => None,
        };
        match existing {
            Some(same) => {
                if !same {
                    return Err(SchemaConflict::Colliding(descriptor.target));
                }
            },
            None => {
                definitions.push(Member { name, value: schema });
                assert(json::member_views(definitions@) =~= standing.push(
                    wire_model::named(definition_name(descriptor.target@), written),
                ));
            },
        }
    }
    Ok(())
}

/// Whether the target at a position has the grammar that was seen, and each of
/// its relations leads to a pending target or to one that was seen.
pub open spec fn described_at(
    path: Seq<char>,
    catalog: Seq<DescriptorV>,
    pending: Seq<int>,
    seen: Seq<json::MemberV>,
    member: json::MemberV,
    position: int,
) -> bool {
    &&& 0 <= position < catalog.len()
    &&& catalog[position].target == member.name
    &&& expression_schema(path, catalog, catalog[position]) == member.value
    &&& forall|i: int|
        0 <= i < relations(catalog[position].fields).len() ==> pending.contains(
            #[trigger] relations(catalog[position].fields)[i],
        ) || lookup(seen, catalog[relations(catalog[position].fields)[i]].target) is Some
}

/// Whether every target that was seen is described and defined, and leads only
/// to pending targets and to targets that were seen.
pub open spec fn grammars_stand(
    path: Seq<char>,
    catalog: Seq<DescriptorV>,
    pending: Seq<int>,
    seen: Seq<json::MemberV>,
    definitions: Seq<json::MemberV>,
) -> bool {
    forall|k: int|
        0 <= k < seen.len() ==> lookup(definitions, definition_name((#[trigger] seen[k]).name))
            == Some(seen[k].value) && exists|position: int|
            described_at(path, catalog, pending, seen, seen[k], position)
}

/// What stands once a target is described.
proof fn lemma_grammars_stand(
    path: Seq<char>,
    catalog: Seq<DescriptorV>,
    pending: Seq<int>,
    seen: Seq<json::MemberV>,
    definitions: Seq<json::MemberV>,
)
    requires
        closed_catalog(catalog),
        positions_within(pending, catalog),
        grammars_stand(path, catalog, pending, seen, definitions),
        installed(path, catalog, pending, seen, definitions) is Ok,
    ensures
        ({
            let outcome = installed(path, catalog, pending, seen, definitions)->Ok_0;
            &&& grammars_stand(path, catalog, Seq::empty(), outcome.0, outcome.1)
            &&& forall|name: Seq<char>|
                lookup(seen, name) is Some ==> #[trigger] lookup(outcome.0, name) == lookup(
                    seen,
                    name,
                )
            &&& forall|i: int|
                0 <= i < pending.len() ==> lookup(
                    outcome.0,
                    catalog[#[trigger] pending[i]].target,
                ) == Some(expression_schema(path, catalog, catalog[pending[i]]))
        }),
    decreases unseen(catalog, seen), pending.len(), 1int,
{
    if pending.len() == 0 {
        assert(pending =~= Seq::empty());
    } else {
        lemma_grammars_stand_behind(path, catalog, pending, seen, definitions);
    }
}

/// What stands once the first pending target is described.
#[verifier::spinoff_prover]
#[verifier::rlimit(50)]
proof fn lemma_grammars_stand_behind(
    path: Seq<char>,
    catalog: Seq<DescriptorV>,
    pending: Seq<int>,
    seen: Seq<json::MemberV>,
    definitions: Seq<json::MemberV>,
)
    requires
        pending.len() > 0,
        closed_catalog(catalog),
        positions_within(pending, catalog),
        grammars_stand(path, catalog, pending, seen, definitions),
        installed(path, catalog, pending, seen, definitions) is Ok,
    ensures
        ({
            let outcome = installed(path, catalog, pending, seen, definitions)->Ok_0;
            &&& grammars_stand(path, catalog, Seq::empty(), outcome.0, outcome.1)
            &&& forall|name: Seq<char>|
                lookup(seen, name) is Some ==> #[trigger] lookup(outcome.0, name) == lookup(
                    seen,
                    name,
                )
            &&& forall|i: int|
                0 <= i < pending.len() ==> lookup(
                    outcome.0,
                    catalog[#[trigger] pending[i]].target,
                ) == Some(expression_schema(path, catalog, catalog[pending[i]]))
        }),
    decreases unseen(catalog, seen), pending.len(), 0int,
{
    let position = pending[0];
    let descriptor = catalog[position];
    let rest = pending.skip(1);
    let schema = expression_schema(path, catalog, descriptor);
    assert forall|i: int| 0 <= i < rest.len() implies 0 <= #[trigger] rest[i]
        < catalog.len() by {
        assert(rest[i] == pending[i + 1]);
    }
    assert forall|target: int|
        #[trigger] pending.contains(target) && target != position implies rest.contains(
        target,
    ) by {
        let i = choose|i: int| 0 <= i < pending.len() && pending[i] == target;
        assert(rest[i - 1] == target);
    }
    if lookup(seen, descriptor.target) is Some {
        lemma_stands_without(path, catalog, pending, seen, definitions);
        lemma_grammars_stand(path, catalog, rest, seen, definitions);
        let outcome = installed(path, catalog, rest, seen, definitions)->Ok_0;
        assert(lookup(outcome.0, descriptor.target) == lookup(seen, descriptor.target));
        assert forall|i: int| 0 <= i < pending.len() implies lookup(
            outcome.0,
            catalog[#[trigger] pending[i]].target,
        ) == Some(expression_schema(path, catalog, catalog[pending[i]])) by {
            if i > 0 {
                assert(rest[i - 1] == pending[i]);
            }
        }
    } else {
        let member = wire_model::named(descriptor.target, schema);
        let name = definition_name(descriptor.target);
        let longer = seen.push(member);
        let led = relations(descriptor.fields);
        let next = led + rest;
        let standing = if lookup(definitions, name) is Some {
            definitions
        } else {
            definitions.push(wire_model::named(name, schema))
        };
        lemma_unseen_push(catalog, seen, member);
        lemma_relations_within(catalog, position, descriptor.fields.len() as int);
        assert(descriptor.fields.take(descriptor.fields.len() as int) =~= descriptor.fields);
        assert forall|i: int| 0 <= i < next.len() implies 0 <= #[trigger] next[i]
            < catalog.len() by {
            if i < led.len() {
                assert(next[i] == led[i]);
            } else {
                assert(next[i] == rest[i - led.len()]);
            }
        }
        lemma_lookup_push(seen, member, descriptor.target);
        lemma_lookup_push(definitions, wire_model::named(name, schema), name);
        assert forall|k: int| 0 <= k < longer.len() implies lookup(
            standing,
            definition_name((#[trigger] longer[k]).name),
        ) == Some(longer[k].value) && exists|at: int|
            described_at(path, catalog, next, longer, longer[k], at) by {
            if k < seen.len() {
                assert(longer[k] == seen[k]);
                let at = choose|at: int|
                    described_at(path, catalog, pending, seen, seen[k], at);
                lemma_lookup_push(
                    definitions,
                    wire_model::named(name, schema),
                    definition_name(seen[k].name),
                );
                let links = relations(catalog[at].fields);
                assert forall|i: int| 0 <= i < links.len() implies next.contains(
                    #[trigger] links[i],
                ) || lookup(longer, catalog[links[i]].target) is Some by {
                    lemma_lookup_push(seen, member, catalog[links[i]].target);
                    if pending.contains(links[i]) && links[i] != position {
                        let j = choose|j: int| 0 <= j < rest.len() && rest[j] == links[i];
                        assert(next[led.len() + j] == links[i]);
                    }
                }
                assert(described_at(path, catalog, next, longer, longer[k], at));
            } else {
                assert forall|i: int| 0 <= i < led.len() implies next.contains(
                    #[trigger] led[i],
                ) by {
                    assert(next[i] == led[i]);
                }
                assert(described_at(path, catalog, next, longer, longer[k], position));
            }
        }
        lemma_grammars_stand(path, catalog, next, longer, standing);
        let outcome = installed(path, catalog, next, longer, standing)->Ok_0;
        assert forall|other: Seq<char>|
            lookup(seen, other) is Some implies #[trigger] lookup(outcome.0, other) == lookup(
            seen,
            other,
        ) by {
            lemma_lookup_push(seen, member, other);
        }
        assert(lookup(outcome.0, descriptor.target) == lookup(longer, descriptor.target));
        assert forall|i: int| 0 <= i < pending.len() implies lookup(
            outcome.0,
            catalog[#[trigger] pending[i]].target,
        ) == Some(expression_schema(path, catalog, catalog[pending[i]])) by {
            if i > 0 {
                assert(next[led.len() + i - 1] == pending[i]);
            }
        }
    }
}

/// A pending target that was seen can be taken from the pending ones.
proof fn lemma_stands_without(
    path: Seq<char>,
    catalog: Seq<DescriptorV>,
    pending: Seq<int>,
    seen: Seq<json::MemberV>,
    definitions: Seq<json::MemberV>,
)
    requires
        pending.len() > 0,
        grammars_stand(path, catalog, pending, seen, definitions),
        lookup(seen, catalog[pending[0]].target) is Some,
    ensures
        grammars_stand(path, catalog, pending.skip(1), seen, definitions),
{
    let rest = pending.skip(1);
    assert forall|k: int| 0 <= k < seen.len() implies lookup(
        definitions,
        definition_name((#[trigger] seen[k]).name),
    ) == Some(seen[k].value) && exists|at: int|
        described_at(path, catalog, rest, seen, seen[k], at) by {
        let at = choose|at: int| described_at(path, catalog, pending, seen, seen[k], at);
        let links = relations(catalog[at].fields);
        assert forall|i: int| 0 <= i < links.len() implies rest.contains(
            #[trigger] links[i],
        ) || lookup(seen, catalog[links[i]].target) is Some by {
            if pending.contains(links[i]) && links[i] != pending[0] {
                let j = choose|j: int| 0 <= j < pending.len() && pending[j] == links[i];
                assert(rest[j - 1] == links[i]);
            }
        }
        assert(described_at(path, catalog, rest, seen, seen[k], at));
    }
}

/// Installing a catalog defines the grammar of its first target, and every
/// grammar that stands then refers only to grammars that are defined too.
pub proof fn law_installed_grammars_are_closed(
    path: Seq<char>,
    catalog: Seq<DescriptorV>,
    definitions: Seq<json::MemberV>,
)
    requires
        catalog.len() > 0,
        closed_catalog(catalog),
        installed(path, catalog, seq![0], Seq::empty(), definitions) is Ok,
    ensures
        ({
            let (seen, standing) = installed(
                path,
                catalog,
                seq![0],
                Seq::empty(),
                definitions,
            )->Ok_0;
            &&& lookup(seen, catalog[0].target) == Some(
                expression_schema(path, catalog, catalog[0]),
            )
            &&& grammars_stand(path, catalog, Seq::empty(), seen, standing)
        }),
{
    lemma_grammars_stand(path, catalog, seq![0], Seq::empty(), definitions);
    assert(seq![0int][0] == 0);
}

/// The names of a family are those of its fields, in their order.
pub proof fn law_families_hold_their_fields(fields: Seq<FieldV>, family: FamilyV)
    ensures
        family_names(fields, family) == fields.filter(
            |field: FieldV| field.kind == family,
        ).map_values(|field: FieldV| field.name),
    decreases fields.len(),
{
    let keep = |field: FieldV| field.kind == family;
    let read = |field: FieldV| field.name;
    text::lemma_kept_values(fields, keep, read);
    if fields.len() > 0 {
        law_families_hold_their_fields(fields.drop_last(), family);
    }
}

/// The objects that relations lead to are those of the fields that are
/// relations, in their order.
pub proof fn law_relations_lead_to_their_objects(fields: Seq<FieldV>)
    ensures
        relations(fields) == fields.filter(
            |field: FieldV| field.kind is Many || field.kind is One,
        ).map_values(
            |field: FieldV|
                match field.kind {
                    FamilyV::Many(related) => related,
                    FamilyV::One(related) => related,
                    _ => 0,
                },
        ),
    decreases fields.len(),
{
    let keep = |field: FieldV| field.kind is Many || field.kind is One;
    let read = |field: FieldV|
        match field.kind {
            FamilyV::Many(related) => related,
            FamilyV::One(related) => related,
            _ => 0,
        };
    text::lemma_kept_values(fields, keep, read);
    if fields.len() > 0 {
        law_relations_lead_to_their_objects(fields.drop_last());
    }
}

/// The grammar of a family names the operators that a test of the family can
/// have: on texts all but the orderings and the memberships, on numbers the
/// equality and the orderings, on flags and names the equality, and on each the
/// memberships for sets. A relation over many values has every quantifier but
/// the one of a relation over one.
pub proof fn law_grammars_name_their_operators(
    operator: TextOperator,
    set: SetOperator,
    quantifier: RelationQuantifier,
)
    ensures
        !operator.orders() && !(operator is In) && !(operator is NotIn)
            ==> text_operators().contains(operator.spelling()),
        text_operators().contains(operator.spelling()) ==> !operator.orders() && !(operator is In)
            && !(operator is NotIn),
        comparison_operators().contains(set.spelling()) <==> set is Eq || set.orders(),
        membership_operators().contains(set.spelling()) <==> set.takes_set(),
        equality_operators().contains(set.spelling()) <==> set is Eq,
        many_quantifiers().contains(quantifier.spelling()) <==> !(quantifier is Is),
        one_quantifiers().contains(quantifier.spelling()) <==> quantifier is Is,
{
    let texts = text_operators();
    assert(texts[0] == TextOperator::Eq.spelling());
    assert(texts[1] == TextOperator::EqIgnoreCase.spelling());
    assert(texts[2] == TextOperator::Contains.spelling());
    assert(texts[3] == TextOperator::ContainsIgnoreCase.spelling());
    assert(texts[4] == TextOperator::StartsWith.spelling());
    assert(texts[5] == TextOperator::StartsWithIgnoreCase.spelling());
    assert(texts[6] == TextOperator::EndsWith.spelling());
    assert(texts[7] == TextOperator::EndsWithIgnoreCase.spelling());
    assert(texts[8] == TextOperator::Regex.spelling());
    assert(texts[9] == TextOperator::RegexIgnoreCase.spelling());
    if texts.contains(operator.spelling()) {
        let at = choose|at: int| 0 <= at < texts.len() && texts[at] == operator.spelling();
        let known = if at == 0 {
            TextOperator::Eq
        } else if at == 1 {
            TextOperator::EqIgnoreCase
        } else if at == 2 {
            TextOperator::Contains
        } else if at == 3 {
            TextOperator::ContainsIgnoreCase
        } else if at == 4 {
            TextOperator::StartsWith
        } else if at == 5 {
            TextOperator::StartsWithIgnoreCase
        } else if at == 6 {
            TextOperator::EndsWith
        } else if at == 7 {
            TextOperator::EndsWithIgnoreCase
        } else if at == 8 {
            TextOperator::Regex
        } else {
            TextOperator::RegexIgnoreCase
        };
        grammar::law_text_spellings_are_distinct(known, operator);
    }
    lemma_set_spellings_are_distinct(set);
    let comparisons = comparison_operators();
    assert(comparisons[0] == SetOperator::Eq.spelling());
    assert(comparisons[1] == SetOperator::Lt.spelling());
    assert(comparisons[2] == SetOperator::Lte.spelling());
    assert(comparisons[3] == SetOperator::Gt.spelling());
    assert(comparisons[4] == SetOperator::Gte.spelling());
    let memberships = membership_operators();
    assert(memberships[0] == SetOperator::In.spelling());
    assert(memberships[1] == SetOperator::NotIn.spelling());
    assert(equality_operators()[0] == SetOperator::Eq.spelling());
    let many = many_quantifiers();
    assert(many[0] == RelationQuantifier::Any.spelling());
    assert(many[1] == RelationQuantifier::All.spelling());
    assert(many[2] == RelationQuantifier::NoneOf.spelling());
    assert(one_quantifiers()[0] == RelationQuantifier::Is.spelling());
    grammar::law_quantifier_spellings_are_distinct(quantifier, RelationQuantifier::Any);
    grammar::law_quantifier_spellings_are_distinct(quantifier, RelationQuantifier::All);
    grammar::law_quantifier_spellings_are_distinct(quantifier, RelationQuantifier::NoneOf);
    grammar::law_quantifier_spellings_are_distinct(quantifier, RelationQuantifier::Is);
}

proof fn lemma_set_spellings_are_distinct(set: SetOperator)
    ensures
        set.spelling() == SetOperator::Eq.spelling() <==> set is Eq,
        set.spelling() == SetOperator::In.spelling() <==> set is In,
        set.spelling() == SetOperator::NotIn.spelling() <==> set is NotIn,
        set.spelling() == SetOperator::Lt.spelling() <==> set is Lt,
        set.spelling() == SetOperator::Lte.spelling() <==> set is Lte,
        set.spelling() == SetOperator::Gt.spelling() <==> set is Gt,
        set.spelling() == SetOperator::Gte.spelling() <==> set is Gte,
{
    let own = match set {
        SetOperator::Eq => TextOperator::Eq,
        SetOperator::In => TextOperator::In,
        SetOperator::NotIn => TextOperator::NotIn,
        SetOperator::Lt => TextOperator::Lt,
        SetOperator::Lte => TextOperator::Lte,
        SetOperator::Gt => TextOperator::Gt,
        SetOperator::Gte => TextOperator::Gte,
    };
    grammar::law_text_spellings_are_distinct(own, TextOperator::Eq);
    grammar::law_text_spellings_are_distinct(own, TextOperator::In);
    grammar::law_text_spellings_are_distinct(own, TextOperator::NotIn);
    grammar::law_text_spellings_are_distinct(own, TextOperator::Lt);
    grammar::law_text_spellings_are_distinct(own, TextOperator::Lte);
    grammar::law_text_spellings_are_distinct(own, TextOperator::Gt);
    grammar::law_text_spellings_are_distinct(own, TextOperator::Gte);
}

/// The grammar of an object has the connectives, then the tests of its
/// families, then those of its fields with names and relations, field by field
/// and in their order. A family without a field adds nothing.
pub proof fn law_grammars_follow_their_fields(
    path: Seq<char>,
    catalog: Seq<DescriptorV>,
    fields: Seq<FieldV>,
    field: FieldV,
    operators: Seq<Seq<char>>,
    literal: json::JsonV,
)
    ensures
        all_field_variants(path, catalog, Seq::empty()) == Seq::<json::JsonV>::empty(),
        all_field_variants(path, catalog, fields.push(field)) == all_field_variants(
            path,
            catalog,
            fields,
        ) + field_variants(path, catalog, field),
        scalar_variants(Seq::empty(), operators, literal) == Seq::<json::JsonV>::empty(),
        field.kind is Many || field.kind is One ==> field_variants(path, catalog, field).len() == 1,
        field.kind matches FamilyV::Enum(values) ==> field_variants(path, catalog, field).len()
            == if values.len() == 0 { 0int } else { 2 },
        field.kind is Text || field.kind is Bool || field.kind is Signed || field.kind is Unsigned
            ==> field_variants(path, catalog, field).len() == 0,
        connective_variants(path, field.name).len() == 2,
{
    let longer = fields.push(field);
    assert(longer.drop_last() =~= fields);
}

/// A segment of a pointer is written character by character, with its tildes
/// and slashes escaped.
pub proof fn law_pointers_escape_tildes_and_slashes(name: Seq<char>, next: char)
    ensures
        pointer_segment(Seq::empty()) == Seq::<char>::empty(),
        pointer_segment(name.push('~')) == pointer_segment(name) + seq!['~', '0'],
        pointer_segment(name.push('/')) == pointer_segment(name) + seq!['~', '1'],
        next != '~' && next != '/' ==> pointer_segment(name.push(next)) == pointer_segment(
            name,
        ).push(next),
{
    reveal_strlit("~0");
    reveal_strlit("~1");
    assert("~0"@ =~= seq!['~', '0']);
    assert("~1"@ =~= seq!['~', '1']);
    assert(name.push('~').drop_last() =~= name);
    assert(name.push('/').drop_last() =~= name);
    assert(name.push(next).drop_last() =~= name);
    assert(pointer_segment(name) + seq![next] =~= pointer_segment(name).push(next));
    assert(pointer_segment(Seq::empty()) =~= Seq::empty());
}

/// The slashes at the end of a path are taken off, and nothing else is.
pub proof fn law_paths_end_without_slashes(path: Seq<char>)
    ensures
        without_slashes(path).len() <= path.len(),
        path.take(without_slashes(path).len() as int) == without_slashes(path),
        forall|i: int| without_slashes(path).len() <= i < path.len() ==> #[trigger] path[i] == '/',
        without_slashes(path).len() > 0 ==> without_slashes(path).last() != '/',
    decreases path.len(),
{
    if path.len() > 0 && path.last() == '/' {
        let head = path.drop_last();
        law_paths_end_without_slashes(head);
        let kept = without_slashes(path).len() as int;
        assert(path.take(kept) =~= head.take(kept));
        assert forall|i: int| kept <= i < path.len() implies #[trigger] path[i] == '/' by {
            if i < head.len() {
                assert(head[i] == path[i]);
            }
        }
    } else {
        assert(path.take(path.len() as int) =~= path);
    }
}

/// A grammar closes its objects: no member but the named ones, and those that
/// are required. A vocabulary lists its words once and in order, a set has at
/// most 4096 literals, and a junction between 2 and 4096 branches.
pub proof fn law_grammars_are_closed(
    properties: Seq<json::MemberV>,
    required: Seq<Seq<char>>,
    words: Seq<Seq<char>>,
    item: json::JsonV,
    path: Seq<char>,
    target: Seq<char>,
)
    ensures
        object_schema(properties, required) == json::JsonV::Object(
            seq![
                json::MemberV { name: "additionalProperties"@, value: json::JsonV::Bool(false) },
                json::MemberV { name: "properties"@, value: json::JsonV::Object(properties) },
                json::MemberV {
                    name: "required"@,
                    value: json::JsonV::Array(
                        required.map_values(|word: Seq<char>| json::JsonV::String(word)),
                    ),
                },
                json::MemberV { name: "type"@, value: json::JsonV::String("object"@) },
            ],
        ),
        vocabulary_schema(words) == json::JsonV::Object(
            seq![
                json::MemberV {
                    name: "enum"@,
                    value: json::JsonV::Array(
                        text::sorted_set(words).map_values(
                            |word: Seq<char>| json::JsonV::String(word),
                        ),
                    ),
                },
                json::MemberV { name: "type"@, value: json::JsonV::String("string"@) },
            ],
        ),
        set_schema(item) == json::JsonV::Object(
            seq![
                json::MemberV { name: "items"@, value: item },
                json::MemberV {
                    name: "maxItems"@,
                    value: json::JsonV::Number(Number::Unsigned(4096)),
                },
                json::MemberV { name: "type"@, value: json::JsonV::String("array"@) },
            ],
        ),
        branches_schema(item) == json::JsonV::Object(
            seq![
                json::MemberV { name: "items"@, value: item },
                json::MemberV {
                    name: "maxItems"@,
                    value: json::JsonV::Number(Number::Unsigned(4096)),
                },
                json::MemberV {
                    name: "minItems"@,
                    value: json::JsonV::Number(Number::Unsigned(2)),
                },
                json::MemberV { name: "type"@, value: json::JsonV::String("array"@) },
            ],
        ),
        reference(path, target) == json::JsonV::Object(
            seq![
                json::MemberV {
                    name: "$ref"@,
                    value: json::JsonV::String(
                        "#"@ + without_slashes(path) + "/"@ + pointer_segment(
                            "libtmux_filter_expr_"@ + target,
                        ),
                    ),
                },
            ],
        ),
{
}

/// The grammar of an envelope requires the version, which is one, the target's
/// own name, and an expression of the target.
pub proof fn law_envelopes_name_their_target(path: Seq<char>, target: Seq<char>)
    ensures
        envelope_schema(path, target) == object_schema(
            seq![
                json::MemberV { name: "expr"@, value: reference(path, target) },
                json::MemberV { name: "target"@, value: constant_schema(target) },
                json::MemberV {
                    name: "version"@,
                    value: json::JsonV::Object(
                        seq![
                            json::MemberV {
                                name: "const"@,
                                value: json::JsonV::Number(Number::Unsigned(1)),
                            },
                            json::MemberV {
                                name: "type"@,
                                value: json::JsonV::String("integer"@),
                            },
                        ],
                    ),
                },
            ],
            seq!["version"@, "target"@, "expr"@],
        ),
        constant_schema(target) == json::JsonV::Object(
            seq![
                json::MemberV { name: "const"@, value: json::JsonV::String(target) },
                json::MemberV { name: "type"@, value: json::JsonV::String("string"@) },
            ],
        ),
{
}

/// A family with fields has two variants, one with its operators and a literal
/// and one with the memberships and a set of literals. A relation names its
/// field, its quantifiers and the grammar that it leads to.
pub proof fn law_families_have_two_variants(
    fields: Seq<Seq<char>>,
    operators: Seq<Seq<char>>,
    literal: json::JsonV,
    path: Seq<char>,
    field: Seq<char>,
    related: Seq<char>,
)
    ensures
        fields.len() > 0 ==> scalar_variants(fields, operators, literal) == seq![
            object_schema(
                seq![
                    json::MemberV { name: "field"@, value: vocabulary_schema(fields) },
                    json::MemberV { name: "op"@, value: vocabulary_schema(operators) },
                    json::MemberV { name: "value"@, value: literal },
                ],
                seq!["op"@, "field"@, "value"@],
            ),
            object_schema(
                seq![
                    json::MemberV { name: "field"@, value: vocabulary_schema(fields) },
                    json::MemberV { name: "op"@, value: vocabulary_schema(membership_operators()) },
                    json::MemberV { name: "value"@, value: set_schema(literal) },
                ],
                seq!["op"@, "field"@, "value"@],
            ),
        ],
        relation_variant(path, field, operators, related) == object_schema(
            seq![
                json::MemberV { name: "expr"@, value: reference(path, related) },
                json::MemberV { name: "field"@, value: constant_schema(field) },
                json::MemberV { name: "op"@, value: constant_schema("relation"@) },
                json::MemberV { name: "quantifier"@, value: vocabulary_schema(operators) },
            ],
            seq!["op"@, "field"@, "quantifier"@, "expr"@],
        ),
{
}

/// The grammar of an object has the connectives, the tests of its families and
/// the tests of its other fields, in this order. Texts are strings, flags are
/// booleans, and numbers are strings of their notation.
pub proof fn law_expressions_have_their_variants(
    path: Seq<char>,
    catalog: Seq<DescriptorV>,
    descriptor: DescriptorV,
)
    ensures
        ({
            let variants = expression_variants(path, catalog, descriptor);
            let texts = scalar_variants(
                family_names(descriptor.fields, FamilyV::Text),
                text_operators(),
                type_schema("string"@),
            );
            let flags = scalar_variants(
                family_names(descriptor.fields, FamilyV::Bool),
                equality_operators(),
                type_schema("boolean"@),
            );
            let signed = scalar_variants(
                family_names(descriptor.fields, FamilyV::Signed),
                comparison_operators(),
                pattern_schema("^-?(0|[1-9][0-9]*)$"@),
            );
            let unsigned = scalar_variants(
                family_names(descriptor.fields, FamilyV::Unsigned),
                comparison_operators(),
                pattern_schema("^(0|[1-9][0-9]*)$"@),
            );
            let rest = all_field_variants(path, catalog, descriptor.fields);
            &&& variants.take(2) == connective_variants(path, descriptor.target)
            &&& variants.skip(2) == texts + flags + signed + unsigned + rest
            &&& expression_schema(path, catalog, descriptor) == json::JsonV::Object(
                seq![json::MemberV { name: "oneOf"@, value: json::JsonV::Array(variants) }],
            )
        }),
{
    let variants = expression_variants(path, catalog, descriptor);
    assert(variants.take(2) =~= connective_variants(path, descriptor.target));
    assert(variants.skip(2) =~= family_variants(descriptor.fields) + all_field_variants(
        path,
        catalog,
        descriptor.fields,
    ));
}

/// Installing a grammar adds definitions behind those that stand and changes
/// none of them.
pub proof fn law_standing_definitions_are_kept(
    path: Seq<char>,
    catalog: Seq<DescriptorV>,
    pending: Seq<int>,
    seen: Seq<json::MemberV>,
    definitions: Seq<json::MemberV>,
)
    ensures
        installed(path, catalog, pending, seen, definitions) matches Ok((known, standing)) ==> {
            &&& seen.len() <= known.len() && known.take(seen.len() as int) == seen
            &&& definitions.len() <= standing.len()
            &&& standing.take(definitions.len() as int) == definitions
            &&& standing.len() - definitions.len() <= known.len() - seen.len()
        },
    decreases unseen(catalog, seen), pending.len(),
{
    if pending.len() == 0 || pending[0] < 0 || pending[0] >= catalog.len() {
        assert(seen.take(seen.len() as int) =~= seen);
        assert(definitions.take(definitions.len() as int) =~= definitions);
    } else {
        let descriptor = catalog[pending[0]];
        let rest = pending.skip(1);
        let schema = expression_schema(path, catalog, descriptor);
        let name = definition_name(descriptor.target);
        let member = wire_model::named(descriptor.target, schema);
        let next = relations(descriptor.fields) + rest;
        match lookup(seen, descriptor.target) {
            Some(known) => if known == schema {
                law_standing_definitions_are_kept(path, catalog, rest, seen, definitions);
            },
            None => {
                lemma_unseen_push(catalog, seen, member);
                let longer = seen.push(member);
                let more = definitions.push(wire_model::named(name, schema));
                match lookup(definitions, name) {
                    Some(existing) => if existing == schema {
                        law_standing_definitions_are_kept(path, catalog, next, longer, definitions);
                    },
                    None => {
                        law_standing_definitions_are_kept(path, catalog, next, longer, more);
                    },
                }
                if let Ok((known, standing)) = installed(
                    path,
                    catalog,
                    pending,
                    seen,
                    definitions,
                ) {
                    assert(known.take(longer.len() as int).take(seen.len() as int) =~= known.take(
                        seen.len() as int,
                    ));
                    assert(longer.take(seen.len() as int) =~= seen);
                    assert(more.take(definitions.len() as int) =~= definitions);
                    if lookup(definitions, name) is None {
                        assert(standing.take(more.len() as int).take(definitions.len() as int)
                            =~= standing.take(definitions.len() as int));
                    }
                }
            },
        }
    }
}

/// The grammar of an object without relations is added where its name is free,
/// left alone where it stands already, and refused where another stands under
/// its name.
pub proof fn law_grammars_do_not_collide(
    path: Seq<char>,
    descriptor: DescriptorV,
    definitions: Seq<json::MemberV>,
)
    requires
        relations(descriptor.fields).len() == 0,
    ensures
        ({
            let catalog = seq![descriptor];
            let outcome = installed(path, catalog, seq![0], Seq::empty(), definitions);
            let schema = expression_schema(path, catalog, descriptor);
            let standing = lookup(definitions, "libtmux_filter_expr_"@ + descriptor.target);
            &&& standing is None ==> outcome is Ok && outcome->Ok_0.1 == definitions.push(
                json::MemberV {
                    name: "libtmux_filter_expr_"@ + descriptor.target,
                    value: schema,
                },
            )
            &&& standing == Some(schema) ==> outcome is Ok && outcome->Ok_0.1 == definitions
            &&& standing is Some && standing != Some(schema) ==> outcome is Err && outcome->Err_0
                == ConflictV::Colliding(descriptor.target)
        }),
{
    let catalog = seq![descriptor];
    let pending = seq![0int];
    let none = Seq::<json::MemberV>::empty();
    let schema = expression_schema(path, catalog, descriptor);
    let member = wire_model::named(descriptor.target, schema);
    assert(pending.skip(1) =~= Seq::empty());
    assert(relations(descriptor.fields) + pending.skip(1) =~= Seq::empty());
    assert(wire_model::position(none, descriptor.target) == 0);
    lemma_unseen_push(catalog, none, member);
    reveal_with_fuel(installed, 3);
}

/// A field of names has the variants of its own words, a relation over many
/// values takes any, all or none of them, and one over one value takes it. The
/// connectives are a junction of branches and a negation.
pub proof fn law_fields_have_their_variants(
    path: Seq<char>,
    catalog: Seq<DescriptorV>,
    field: FieldV,
    target: Seq<char>,
)
    ensures
        field.kind matches FamilyV::Enum(words) ==> (words.len() > 0 ==> field_variants(
            path,
            catalog,
            field,
        ) == scalar_variants(seq![field.name], equality_operators(), vocabulary_schema(words))),
        field.kind matches FamilyV::Many(related) ==> field_variants(path, catalog, field) == seq![
            relation_variant(
                path,
                field.name,
                seq!["any"@, "all"@, "none"@],
                catalog[related].target,
            ),
        ],
        field.kind matches FamilyV::One(related) ==> field_variants(path, catalog, field) == seq![
            relation_variant(path, field.name, seq!["is"@], catalog[related].target),
        ],
        connective_variants(path, target) == seq![
            object_schema(
                seq![
                    json::MemberV {
                        name: "args"@,
                        value: branches_schema(reference(path, target)),
                    },
                    json::MemberV {
                        name: "op"@,
                        value: vocabulary_schema(seq!["and"@, "or"@]),
                    },
                ],
                seq!["op"@, "args"@],
            ),
            object_schema(
                seq![
                    json::MemberV { name: "expr"@, value: reference(path, target) },
                    json::MemberV { name: "op"@, value: constant_schema("not"@) },
                ],
                seq!["op"@, "expr"@],
            ),
        ],
        type_schema(target) == json::JsonV::Object(
            seq![json::MemberV { name: "type"@, value: json::JsonV::String(target) }],
        ),
        pattern_schema(target) == json::JsonV::Object(
            seq![
                json::MemberV { name: "pattern"@, value: json::JsonV::String(target) },
                json::MemberV { name: "type"@, value: json::JsonV::String("string"@) },
            ],
        ),
{
}

} // verus!
