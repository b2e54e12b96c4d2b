//! The version 1 wire form of filter expressions.

use vstd::prelude::*;
use vstd::string::*;

use crate::json;
use crate::json::FloatShape;
use crate::json::Json;
use crate::json::Member;
use crate::json::Number;
use crate::query::error::FilterExpressionError;
use crate::query::error::FilterExpressionErrorKind;
use crate::query::grammar::RelationQuantifier;
use crate::query::grammar::TextOperator;
use crate::query::grammar::MAX_EXPRESSION_DEPTH;
use crate::query::grammar::MAX_EXPRESSION_NODES;
use crate::query::grammar::MAX_SET_VALUES;
use crate::query::matching;
use crate::query::matching::ExprData;
use crate::query::matching::PredicateData;
use crate::query::matching::RelationPredicate;
use crate::query::matching::WireBoolPredicate;
use crate::query::matching::WireEmptyPredicate;
use crate::query::matching::WireStringPredicate;
use crate::query::model;
use crate::query::private::Predicate;
use crate::query::wire_model;
use crate::text::str_eq;

verus! {

/// What an envelope's version turned out to be.
#[derive(Clone, Copy, Debug, PartialEq, Eq, Structural)]
pub enum WireVersion {
    One,
    Unsupported,
    Invalid,
}

/// Read the version that a document denotes.
pub fn read_version(document: &Json) -> (version: WireVersion)
    ensures
        version == wire_model::version(document@),
{
    match document {
        Json::Number(Number::Signed(value)) => if *value == 1 {
            WireVersion::One
        } else {
            WireVersion::Unsupported
        },
        Json::Number(Number::Unsigned(value)) => if *value == 1 {
            WireVersion::One
        } else {
            WireVersion::Unsupported
        },
        Json::Number(Number::Float(FloatShape::One)) => WireVersion::One,
        Json::Number(Number::Float(FloatShape::Integral)) => WireVersion::Unsupported,
        _ => WireVersion::Invalid,
    }
}

/// A literal or a set of literals.
pub enum WireValue {
    String(String),
    Bool(bool),
    Strings(Vec<String>),
    Bools(Vec<bool>),
    Empty,
    Other,
}

impl WireValue {
    /// The literal in contracts.
    pub open spec fn view(&self) -> wire_model::WireValueV {
        match self {
            WireValue::String(value) => wire_model::WireValueV::String(value@),
            WireValue::Bool(value) => wire_model::WireValueV::Bool(*value),
            WireValue::Strings(values) => wire_model::WireValueV::Strings(matching::texts(values@)),
            WireValue::Bools(values) => wire_model::WireValueV::Bools(values@),
            WireValue::Empty => wire_model::WireValueV::Empty,
            WireValue::Other => wire_model::WireValueV::Other,
        }
    }
}

/// An optional literal in contracts.
pub open spec fn value_view(value: Option<WireValue>) -> Option<wire_model::WireValueV> {
    match value {
        Some(value) => Some(value@),
        None => None,
    }
}

/// Read a set of literals of one family.
fn read_set(values: &Vec<Json>) -> (set: WireValue)
    ensures
        set@ == wire_model::wire_value(json::JsonV::Array(json::views(values@))),
{
    let ghost documents = json::views(values@);
    let mut strings: Vec<String> = Vec::new();
    let mut booleans: Vec<bool> = Vec::new();
    let mut others = false;
    let mut index: usize = 0;
    while index < values.len()
        invariant
            index <= values@.len(),
            documents == json::views(values@),
            strings@.len() > 0 ==> exists|i: int|
                0 <= i < index && #[trigger] documents[i] is String,
            booleans@.len() > 0 ==> exists|i: int|
                0 <= i < index && #[trigger] documents[i] is Bool,
            others ==> exists|i: int|
                0 <= i < index && !(#[trigger] documents[i] is String) && !(documents[i] is Bool),
            !others && booleans@.len() == 0 ==> strings@.len() == index && forall|i: int|
                0 <= i < index ==> #[trigger] documents[i] is String && documents[i]->String_0
                    == strings@[i]@,
            !others && strings@.len() == 0 ==> booleans@.len() == index && forall|i: int|
                0 <= i < index ==> #[trigger] documents[i] is Bool && documents[i]->Bool_0
                    == booleans@[i],
        decreases values@.len() - index,
    {
        assert(documents[index as int] == values@[index as int]@);
        match &values[index] {
            Json::String(value) => strings.push(value.clone()),
            Json::Bool(value) => booleans.push(*value),
            _ => others = true,
        }
        index += 1;
    }
    if others || (strings.len() > 0 && booleans.len() > 0) {
        proof {
            if others {
                let i = choose|i: int|
                    0 <= i < index && !(#[trigger] documents[i] is String) && !(documents[i]
                        is Bool);
                assert(!(documents[i] is String));
            } else {
                let i = choose|i: int| 0 <= i < index && #[trigger] documents[i] is String;
                let j = choose|i: int| 0 <= i < index && #[trigger] documents[i] is Bool;
                assert(documents[i] is String);
                assert(documents[j] is Bool);
            }
        }
        WireValue::Other
    } else if strings.len() > 0 {
        assert(matching::texts(strings@) =~= documents.map_values(
            |value: json::JsonV| value->String_0,
        ));
        WireValue::Strings(strings)
    } else if booleans.len() > 0 {
        proof {
            assert(booleans@ =~= documents.map_values(|value: json::JsonV| value->Bool_0));
            assert(documents[0] is Bool);
        }
        WireValue::Bools(booleans)
    } else {
        WireValue::Empty
    }
}

/// Read the literal that a document denotes.
pub fn read_value(document: &Json) -> (value: WireValue)
    ensures
        value@ == wire_model::wire_value(document@),
{
    match document {
        Json::String(value) => WireValue::String(value.clone()),
        Json::Bool(value) => WireValue::Bool(*value),
        Json::Array(values) => {
            proof {
                json::lemma_views(*values, arbitrary());
            }
            read_set(values)
        },
        Json::Null | Json::Number(_) | Json::Object(_) => WireValue::Other,
    }
}

/// An expression object before its operator is looked at.
pub struct RawNode {
    pub invalid_member: bool,
    pub op: Option<WireValue>,
    pub args: Option<RawArgs>,
    pub expression: Option<RawExpression>,
    pub field: Option<WireValue>,
    pub value: Option<WireValue>,
    pub quantifier: Option<WireValue>,
}

/// The argument list of an expression object.
pub enum RawArgs {
    Nodes(Vec<RawNode>),
    Other,
}

/// The nested expression of an expression object.
pub enum RawExpression {
    Node(Box<RawNode>),
    Other,
}

impl RawArgs {
    /// The argument list in contracts.
    pub open spec fn view(&self) -> wire_model::RawArgsV
        decreases self,
    {
        match self {
            RawArgs::Nodes(nodes) => wire_model::RawArgsV::Nodes(
                Seq::new(
                    nodes@.len(),
                    |i: int|
                        if 0 <= i < nodes@.len() {
                            nodes@[i].view()
                        } else {
                            arbitrary()
                        },
                ),
            ),
            RawArgs::Other => wire_model::RawArgsV::Other,
        }
    }
}

impl RawExpression {
    /// The nested expression in contracts.
    pub open spec fn view(&self) -> wire_model::RawExpressionV
        decreases self,
    {
        match self {
            RawExpression::Node(node) => wire_model::RawExpressionV::Node(Box::new(node.view())),
            RawExpression::Other => wire_model::RawExpressionV::Other,
        }
    }
}

impl RawNode {
    /// The expression object in contracts.
    pub open spec fn view(&self) -> wire_model::RawNodeV
        decreases self,
    {
        wire_model::RawNodeV {
            invalid_member: self.invalid_member,
            op: value_view(self.op),
            args: match self.args {
                Some(args) => Some(args.view()),
                None => None,
            },
            expression: match self.expression {
                Some(expression) => Some(expression.view()),
                None => None,
            },
            field: value_view(self.field),
            value: value_view(self.value),
            quantifier: value_view(self.quantifier),
        }
    }
}

/// The views of a list of expression objects.
pub open spec fn node_views(nodes: Seq<RawNode>) -> Seq<wire_model::RawNodeV> {
    nodes.map_values(|node: RawNode| node@)
}

/// An argument list's view lists the views of its expressions.
pub proof fn lemma_node_views(nodes: Vec<RawNode>)
    ensures
        RawArgs::Nodes(nodes)@ == wire_model::RawArgsV::Nodes(node_views(nodes@)),
{
    assert(RawArgs::Nodes(nodes)@->Nodes_0 =~= node_views(nodes@));
}

/// The names of an expression object's members are distinct.
pub proof fn lemma_node_names()
    ensures
        "op"@ != "args"@,
        "op"@ != "expr"@,
        "op"@ != "field"@,
        "op"@ != "value"@,
        "op"@ != "quantifier"@,
        "args"@ != "expr"@,
        "args"@ != "field"@,
        "args"@ != "value"@,
        "args"@ != "quantifier"@,
        "expr"@ != "field"@,
        "expr"@ != "value"@,
        "expr"@ != "quantifier"@,
        "field"@ != "value"@,
        "field"@ != "quantifier"@,
        "value"@ != "quantifier"@,
        forall|name: Seq<char>| #[trigger]
            wire_model::node_names().contains(name) <==> name == "op"@ || name == "args"@ || name
                == "expr"@ || name == "field"@ || name == "value"@ || name == "quantifier"@,
{
    reveal_strlit("op");
    reveal_strlit("args");
    reveal_strlit("expr");
    reveal_strlit("field");
    reveal_strlit("value");
    reveal_strlit("quantifier");
    assert("args"@[0] != "expr"@[0]);
    assert("field"@[0] != "value"@[0]);
    let names = wire_model::node_names();
    assert(names[0] == "op"@);
    assert(names[1] == "args"@);
    assert(names[2] == "expr"@);
    assert(names[3] == "field"@);
    assert(names[4] == "value"@);
    assert(names[5] == "quantifier"@);
}

/// Where a member is found once one more is looked at.
pub proof fn lemma_position(members: Seq<json::MemberV>, index: int, name: Seq<char>)
    requires
        0 <= index < members.len(),
    ensures
        0 <= wire_model::position(members.take(index), name) <= index,
        wire_model::position(members.take(index + 1), name) == if wire_model::position(
            members.take(index),
            name,
        ) < index {
            wire_model::position(members.take(index), name)
        } else if members[index].name == name {
            index
        } else {
            index + 1
        },
    decreases index,
{
    let longer = members.take(index + 1);
    assert(longer.drop_last() =~= members.take(index));
    assert(longer.last() == members[index]);
    if index > 0 {
        lemma_position(members, index - 1, name);
    }
}

/// What the first members say once one more is looked at.
pub proof fn lemma_member_step(members: Seq<json::MemberV>, index: int, name: Seq<char>)
    requires
        0 <= index < members.len(),
    ensures
        ({
            let earlier = members.take(index);
            let longer = members.take(index + 1);
            let absent = wire_model::position(earlier, name) == index;
            let found = members[index].name == name;
            &&& absent <==> wire_model::member_value(earlier, name) is None
            &&& absent <==> wire_model::member_args(earlier, name) is None
            &&& absent <==> wire_model::member_expression(earlier, name) is None
            &&& wire_model::member_value(longer, name) == if absent && found {
                Some(wire_model::wire_value(members[index].value))
            } else {
                wire_model::member_value(earlier, name)
            }
            &&& wire_model::member_args(longer, name) == if absent && found {
                Some(wire_model::raw_args(members[index].value))
            } else {
                wire_model::member_args(earlier, name)
            }
            &&& wire_model::member_expression(longer, name) == if absent && found {
                Some(wire_model::raw_expression(members[index].value))
            } else {
                wire_model::member_expression(earlier, name)
            }
        }),
{
    lemma_position(members, index, name);
    let earlier = members.take(index);
    let longer = members.take(index + 1);
    let found = wire_model::position(earlier, name);
    if found < index {
        assert(longer[found] == earlier[found]);
    }
}

/// Whether a member is invalid once one more is looked at.
pub proof fn lemma_invalid_step(members: Seq<json::MemberV>, index: int, known: Seq<Seq<char>>)
    requires
        0 <= index < members.len(),
    ensures
        wire_model::has_invalid_member(members.take(index + 1), known) == (
        wire_model::has_invalid_member(members.take(index), known) || !wire_model::accepted_member(
            members.take(index),
            members[index],
            known,
        )),
{
    let earlier = members.take(index);
    let longer = members.take(index + 1);
    assert forall|i: int| 0 <= i <= index implies #[trigger] longer.take(i) == members.take(i) by {
        assert(longer.take(i) =~= members.take(i));
    }
    assert forall|i: int| 0 <= i < index implies #[trigger] earlier.take(i) == members.take(i) by {
        assert(earlier.take(i) =~= members.take(i));
    }
    if wire_model::has_invalid_member(longer, known) {
        let i = choose|i: int|
            0 <= i < longer.len() && !wire_model::accepted_member(
                #[trigger] longer.take(i),
                longer[i],
                known,
            );
        if i < index {
            assert(earlier.take(i) == longer.take(i));
            assert(earlier[i] == longer[i]);
        }
    }
    if wire_model::has_invalid_member(earlier, known) {
        let i = choose|i: int|
            0 <= i < earlier.len() && !wire_model::accepted_member(
                #[trigger] earlier.take(i),
                earlier[i],
                known,
            );
        assert(longer.take(i) == earlier.take(i));
        assert(earlier[i] == longer[i]);
    }
    if !wire_model::accepted_member(earlier, members[index], known) {
        assert(longer.take(index) == earlier);
        assert(longer[index] == members[index]);
    }
}

impl RawNode {
    /// Read an expression object. A member with an unknown name, or with one
    /// that occurred before, is marked and otherwise passed over.
    pub fn from_map(members: &Vec<Member>) -> (node: RawNode)
        ensures
            node@ == wire_model::raw_node(json::member_views(members@)),
        decreases members, 0int,
    {
        let ghost all = json::member_views(members@);
        let ghost known = wire_model::node_names();
        let mut node = RawNode {
            invalid_member: false,
            op: None,
            args: None,
            expression: None,
            field: None,
            value: None,
            quantifier: None,
        };
        let mut index: usize = 0;
        proof {
            assert(all.take(0).len() == 0);
        }
        while index < members.len()
            invariant
                index <= members@.len(),
                all == json::member_views(members@),
                known == wire_model::node_names(),
                node@.invalid_member == wire_model::has_invalid_member(
                    all.take(index as int),
                    known,
                ),
                node@.op == wire_model::member_value(all.take(index as int), "op"@),
                node@.args == wire_model::member_args(all.take(index as int), "args"@),
                node@.expression == wire_model::member_expression(
                    all.take(index as int),
                    "expr"@,
                ),
                node@.field == wire_model::member_value(all.take(index as int), "field"@),
                node@.value == wire_model::member_value(all.take(index as int), "value"@),
                node@.quantifier == wire_model::member_value(
                    all.take(index as int),
                    "quantifier"@,
                ),
            decreases members@.len() - index,
        {
            let member = &members[index];
            let name = member.name.as_str();
            proof {
                lemma_node_names();
                lemma_member_step(all, index as int, "op"@);
                lemma_member_step(all, index as int, "args"@);
                lemma_member_step(all, index as int, "expr"@);
                lemma_member_step(all, index as int, "field"@);
                lemma_member_step(all, index as int, "value"@);
                lemma_member_step(all, index as int, "quantifier"@);
                lemma_invalid_step(all, index as int, known);
                assert(all[index as int] == member@);
                assert(decreases_to!(members => member.value));
            }
            if str_eq(name, "op") && node.op.is_none() {
                node.op = Some(read_value(&member.value));
            } else if str_eq(name, "args") && node.args.is_none() {
                node.args = Some(RawArgs::read(&member.value));
            } else if str_eq(name, "expr") && node.expression.is_none() {
                node.expression = Some(RawExpression::read(&member.value));
            } else if str_eq(name, "field") && node.field.is_none() {
                node.field = Some(read_value(&member.value));
            } else if str_eq(name, "value") && node.value.is_none() {
                node.value = Some(read_value(&member.value));
            } else if str_eq(name, "quantifier") && node.quantifier.is_none() {
                node.quantifier = Some(read_value(&member.value));
            } else {
                node.invalid_member = true;
            }
            index += 1;
        }
        assert(all.take(all.len() as int) =~= all);
        node
    }
}

impl RawExpression {
    /// Read a nested expression.
    pub fn read(document: &Json) -> (expression: RawExpression)
        ensures
            expression@ == wire_model::raw_expression(document@),
        decreases document, 0int,
    {
        match document {
            Json::Object(members) => {
                proof {
                    json::lemma_views(arbitrary(), *members);
                }
                RawExpression::Node(Box::new(RawNode::from_map(members)))
            },
            _ => RawExpression::Other,
        }
    }
}

impl RawArgs {
    /// Read an argument list.
    pub fn read(document: &Json) -> (args: RawArgs)
        ensures
            args@ == wire_model::raw_args(document@),
        decreases document, 0int,
    {
        let values = match document {
            Json::Array(values) => values,
            _ => return RawArgs::Other,
        };
        let ghost documents = json::views(values@);
        proof {
            json::lemma_views(*values, arbitrary());
        }
        let mut nodes: Vec<RawNode> = Vec::new();
        let mut index: usize = 0;
        while index < values.len()
            invariant
                index <= values@.len(),
                documents == json::views(values@),
                *document == Json::Array(*values),
                document@ == json::JsonV::Array(documents),
                nodes@.len() == index,
                forall|i: int|
                    0 <= i < index ==> #[trigger] documents[i] is Object && nodes@[i]@
                        == wire_model::raw_node(documents[i]->Object_0),
            decreases values@.len() - index,
        {
            assert(documents[index as int] == values@[index as int]@);
            match &values[index] {
                Json::Object(members) => {
                    proof {
                        json::lemma_views(arbitrary(), *members);
                        assert(decreases_to!(document => members));
                    }
                    nodes.push(RawNode::from_map(members));
                },
                _ => {
                    assert(!(documents[index as int] is Object));
                    return RawArgs::Other;
                },
            }
            index += 1;
        }
        proof {
            lemma_node_views(nodes);
            assert(node_views(nodes@) =~= wire_model::raw_nodes(documents));
        }
        RawArgs::Nodes(nodes)
    }
}

impl RawNode {
    /// The operator's spelling.
    pub fn operator(&self) -> (operator: Option<&str>)
        ensures
            match operator {
                Some(operator) => self@.op == Some(wire_model::WireValueV::String(operator@)),
                None => !wire_model::is_string(self@.op),
            },
    {
        match &self.op {
            Some(WireValue::String(operator)) => Some(operator.as_str()),
            _ => None,
        }
    }

    /// Whether only the members of a scalar test are there.
    pub fn has_only_scalar_members(&self) -> (only: bool)
        ensures
            only == self@.only_scalar(),
    {
        self.args.is_none() && self.expression.is_none() && self.quantifier.is_none()
    }

    /// Whether only the members of a junction are there.
    pub fn has_only_args_members(&self) -> (only: bool)
        ensures
            only == self@.only_args(),
    {
        self.expression.is_none() && self.field.is_none() && self.value.is_none()
            && self.quantifier.is_none()
    }

    /// Whether only the members of a negation are there.
    pub fn has_only_expression_members(&self) -> (only: bool)
        ensures
            only == self@.only_expression(),
    {
        self.args.is_none() && self.field.is_none() && self.value.is_none()
            && self.quantifier.is_none()
    }

    /// Whether only the members of a relation are there.
    pub fn has_only_relation_members(&self) -> (only: bool)
        ensures
            only == self@.only_relation(),
    {
        self.args.is_none() && self.value.is_none()
    }

    /// Whether a literal is one string.
    pub fn validate_string(value: &Option<WireValue>) -> (valid: bool)
        ensures
            valid == wire_model::is_string(value_view(*value)),
    {
        match value {
            Some(WireValue::String(_)) => true,
            _ => false,
        }
    }

    /// Whether a nested expression is there and well structured.
    pub fn validate_nested(expression: &Option<RawExpression>) -> (valid: bool)
        ensures
            valid == wire_model::nested_shape(expression_view(*expression)),
        decreases expression, 1int,
    {
        match expression {
            Some(RawExpression::Node(node)) => node.validate_structure().is_ok(),
            Some(RawExpression::Other) | None => false,
        }
    }

    /// Whether an argument list holds at least two well-structured
    /// expressions.
    pub fn validate_args(args: &Option<RawArgs>) -> (valid: bool)
        ensures
            valid == wire_model::args_shape(args_view(*args)),
        decreases args, 1int,
    {
        let nodes = match args {
            Some(RawArgs::Nodes(nodes)) => nodes,
            Some(RawArgs::Other) | None => return false,
        };
        proof {
            lemma_node_views(*nodes);
        }
        let ghost views = node_views(nodes@);
        if nodes.len() < 2 {
            return false;
        }
        let mut index: usize = 0;
        while index < nodes.len()
            invariant
                index <= nodes@.len(),
                nodes@.len() >= 2,
                *args == Some(RawArgs::Nodes(*nodes)),
                views == node_views(nodes@),
                args_view(*args) == Some(wire_model::RawArgsV::Nodes(views)),
                forall|i: int| 0 <= i < index ==> wire_model::structured(#[trigger] views[i]),
            decreases nodes@.len() - index,
        {
            assert(views[index as int] == nodes@[index as int]@);
            assert(decreases_to!(args => nodes@[index as int]));
            if nodes[index].validate_structure().is_err() {
                assert(!wire_model::structured(views[index as int]));
                assert(!wire_model::all_structured(views));
                return false;
            }
            index += 1;
        }
        assert(wire_model::all_structured(views));
        true
    }

    /// Whether the value has the shape that a scalar operator takes.
    pub fn validate_scalar_value(&self, operator: TextOperator) -> (valid: bool)
        ensures
            valid == wire_model::scalar_shape(operator, self@.value),
    {
        match &self.value {
            None => false,
            Some(value) => match operator {
                TextOperator::Eq => matches!(value, WireValue::String(_) | WireValue::Bool(_)),
                TextOperator::In | TextOperator::NotIn => matches!(
                    value,
                    WireValue::Strings(_) | WireValue::Bools(_) | WireValue::Empty
                ),
                _ => matches!(value, WireValue::String(_)),
            },
        }
    }

    /// Whether an expression with an operator outside the vocabulary has the
    /// shape of some expression.
    pub fn validate_unknown_shape(&self) -> (valid: bool)
        ensures
            valid == wire_model::unknown_shape(self@),
        decreases self, 2int,
    {
        let literal = match &self.value {
            Some(WireValue::Other) | None => false,
            Some(_) => true,
        };
        if self.has_only_scalar_members() && Self::validate_string(&self.field) && literal {
            true
        } else if self.has_only_args_members() {
            Self::validate_args(&self.args)
        } else if self.has_only_expression_members() || (self.has_only_relation_members()
            && Self::validate_string(&self.field) && Self::validate_string(&self.quantifier)) {
            Self::validate_nested(&self.expression)
        } else {
            false
        }
    }

    /// Check that the expression has the shape that its operator asks for.
    ///
    /// # Errors
    ///
    /// [`FilterExpressionErrorKind::InvalidStructure`] where it has not.
    pub fn validate_structure(&self) -> (result: Result<(), FilterExpressionError>)
        ensures
            match result {
                Ok(()) => wire_model::structured(self@),
                Err(error) => !wire_model::structured(self@) && error@
                    == FilterExpressionErrorKind::InvalidStructure,
            },
        decreases self, 3int,
    {
        if self.invalid_member {
            return Err(FilterExpressionError::new(FilterExpressionErrorKind::InvalidStructure));
        }
        let operator = match self.operator() {
            Some(operator) => operator,
            None => return Err(
                FilterExpressionError::new(FilterExpressionErrorKind::InvalidStructure),
            ),
        };
        let valid = if str_eq(operator, "and") || str_eq(operator, "or") {
            self.has_only_args_members() && Self::validate_args(&self.args)
        } else if str_eq(operator, "not") {
            self.has_only_expression_members() && Self::validate_nested(&self.expression)
        } else if str_eq(operator, "relation") {
            self.has_only_relation_members() && Self::validate_string(&self.field)
                && Self::validate_string(&self.quantifier) && Self::validate_nested(
                &self.expression,
            )
        } else {
            match TextOperator::from_label(operator) {
                Some(scalar) => if scalar.is_ordering() {
                    self.validate_unknown_shape()
                } else {
                    self.has_only_scalar_members() && Self::validate_string(&self.field)
                        && self.validate_scalar_value(scalar)
                },
                None => self.validate_unknown_shape(),
            }
        };
        if valid {
            Ok(())
        } else {
            Err(FilterExpressionError::new(FilterExpressionErrorKind::InvalidStructure))
        }
    }
}

/// An optional nested expression in contracts.
pub open spec fn expression_view(expression: Option<RawExpression>) -> Option<
    wire_model::RawExpressionV,
> {
    match expression {
        Some(expression) => Some(expression@),
        None => None,
    }
}

/// An optional argument list in contracts.
pub open spec fn args_view(args: Option<RawArgs>) -> Option<wire_model::RawArgsV> {
    match args {
        Some(args) => Some(args@),
        None => None,
    }
}

impl RawNode {
    /// Whether the expression nests no deeper than a limit.
    pub fn nests_within(&self, limit: usize) -> (within: bool)
        ensures
            within == wire_model::depth_within(self@, limit as int),
        decreases self,
    {
        if limit == 0 {
            return false;
        }
        let nested = match &self.expression {
            Some(RawExpression::Node(inner)) => inner.nests_within(limit - 1),
            _ => true,
        };
        match &self.args {
            Some(RawArgs::Nodes(nodes)) => {
                proof {
                    lemma_node_views(*nodes);
                }
                nested && all_nest_within(nodes, limit - 1)
            },
            _ => nested,
        }
    }

    /// What a budget of expressions leaves once this expression is counted, or
    /// `None` where it does not suffice.
    pub fn count_within(&self, budget: usize) -> (left: Option<usize>)
        ensures
            match left {
                Some(left) => wire_model::node_count(self@) + left == budget,
                None => wire_model::node_count(self@) > budget,
            },
        decreases self,
    {
        if budget == 0 {
            return None;
        }
        let after_nested = match &self.expression {
            Some(RawExpression::Node(inner)) => match inner.count_within(budget - 1) {
                Some(left) => left,
                None => return None,
            },
            _ => budget - 1,
        };
        match &self.args {
            Some(RawArgs::Nodes(nodes)) => {
                proof {
                    lemma_node_views(*nodes);
                }
                count_all_within(nodes, after_nested)
            },
            _ => Some(after_nested),
        }
    }

    /// Whether no set of literals exceeds the limit.
    pub fn sets_within(&self) -> (within: bool)
        ensures
            within == wire_model::sets_within(self@),
        decreases self,
    {
        let literals = match &self.value {
            Some(WireValue::Strings(values)) => values.len() <= MAX_SET_VALUES,
            Some(WireValue::Bools(values)) => values.len() <= MAX_SET_VALUES,
            _ => true,
        };
        let nested = match &self.expression {
            Some(RawExpression::Node(inner)) => inner.sets_within(),
            _ => true,
        };
        match &self.args {
            Some(RawArgs::Nodes(nodes)) => {
                proof {
                    lemma_node_views(*nodes);
                }
                literals && nested && all_sets_within(nodes)
            },
            _ => literals && nested,
        }
    }

    /// Whether the expression keeps the complexity limits.
    pub fn within_limits(&self) -> (within: bool)
        ensures
            within == wire_model::within_limits(self@),
    {
        self.nests_within(MAX_EXPRESSION_DEPTH) && self.count_within(MAX_EXPRESSION_NODES).is_some()
            && self.sets_within()
    }
}

/// Whether every expression of a list nests no deeper than a limit.
fn all_nest_within(nodes: &Vec<RawNode>, limit: usize) -> (within: bool)
    ensures
        within == wire_model::all_depth_within(node_views(nodes@), limit as int),
    decreases nodes,
{
    let ghost views = node_views(nodes@);
    let mut index: usize = 0;
    while index < nodes.len()
        invariant
            index <= nodes@.len(),
            views == node_views(nodes@),
            forall|i: int|
                0 <= i < index ==> wire_model::depth_within(#[trigger] views[i], limit as int),
        decreases nodes@.len() - index,
    {
        assert(views[index as int] == nodes@[index as int]@);
        if !nodes[index].nests_within(limit) {
            assert(!wire_model::depth_within(views[index as int], limit as int));
            return false;
        }
        index += 1;
    }
    true
}

/// What a budget of expressions leaves once a list of them is counted.
fn count_all_within(nodes: &Vec<RawNode>, budget: usize) -> (left: Option<usize>)
    ensures
        match left {
            Some(left) => wire_model::total_count(node_views(nodes@)) + left == budget,
            None => wire_model::total_count(node_views(nodes@)) > budget,
        },
    decreases nodes,
{
    let ghost views = node_views(nodes@);
    let mut left: usize = budget;
    let mut index: usize = 0;
    while index < nodes.len()
        invariant
            index <= nodes@.len(),
            views == node_views(nodes@),
            wire_model::total_count(views.take(index as int)) + left == budget,
        decreases nodes@.len() - index,
    {
        proof {
            let longer = views.take(index + 1);
            assert(longer.drop_last() =~= views.take(index as int));
            assert(longer[index as int] == nodes@[index as int]@);
        }
        match nodes[index].count_within(left) {
            Some(rest) => left = rest,
            None => {
                proof {
                    lemma_partial_count(views, index + 1);
                }
                return None;
            },
        }
        index += 1;
    }
    assert(views.take(views.len() as int) =~= views);
    Some(left)
}

/// The first expressions of a list count no more than all of them.
proof fn lemma_partial_count(nodes: Seq<wire_model::RawNodeV>, length: int)
    requires
        0 <= length <= nodes.len(),
    ensures
        wire_model::total_count(nodes.take(length)) <= wire_model::total_count(nodes),
    decreases nodes.len() - length,
{
    if length < nodes.len() {
        lemma_partial_count(nodes, length + 1);
        assert(nodes.take(length + 1).drop_last() =~= nodes.take(length));
    } else {
        assert(nodes.take(length) =~= nodes);
    }
}

/// Whether no set of literals in a list of expressions exceeds the limit.
fn all_sets_within(nodes: &Vec<RawNode>) -> (within: bool)
    ensures
        within == wire_model::all_sets_within(node_views(nodes@)),
    decreases nodes,
{
    let ghost views = node_views(nodes@);
    let mut index: usize = 0;
    while index < nodes.len()
        invariant
            index <= nodes@.len(),
            views == node_views(nodes@),
            forall|i: int| 0 <= i < index ==> wire_model::sets_within(#[trigger] views[i]),
        decreases nodes@.len() - index,
    {
        assert(views[index as int] == nodes@[index as int]@);
        if !nodes[index].sets_within() {
            assert(!wire_model::sets_within(views[index as int]));
            return false;
        }
        index += 1;
    }
    true
}

/// The outcome of building an expression in contracts.
pub open spec fn built_view(built: Result<ExprData, FilterExpressionError>) -> Result<
    model::ExprV,
    FilterExpressionErrorKind,
> {
    match built {
        Ok(data) => Ok(data@),
        Err(error) => Err(error@),
    }
}

impl RawNode {
    /// The string that a literal holds.
    ///
    /// # Errors
    ///
    /// [`FilterExpressionErrorKind::InvalidStructure`] for any other literal.
    pub fn take_string(value: &Option<WireValue>) -> (taken: Result<&str, FilterExpressionError>)
        ensures
            match taken {
                Ok(text) => value_view(*value) == Some(wire_model::WireValueV::String(text@)),
                Err(error) => !wire_model::is_string(value_view(*value)) && error@
                    == FilterExpressionErrorKind::InvalidStructure,
            },
    {
        match value {
            Some(WireValue::String(value)) => Ok(value.as_str()),
            _ => Err(FilterExpressionError::new(FilterExpressionErrorKind::InvalidStructure)),
        }
    }

    /// The expression object that is nested in another.
    ///
    /// # Errors
    ///
    /// [`FilterExpressionErrorKind::InvalidStructure`] where none is.
    pub fn take_nested(expression: &Option<RawExpression>) -> (taken: Result<
        &RawNode,
        FilterExpressionError,
    >)
        ensures
            match taken {
                Ok(node) => expression_view(*expression) == Some(
                    wire_model::RawExpressionV::Node(Box::new(node@)),
                ) && decreases_to!(expression => node),
                Err(error) => !(expression_view(*expression) matches Some(
                    wire_model::RawExpressionV::Node(_),
                )) && error@ == FilterExpressionErrorKind::InvalidStructure,
            },
    {
        match expression {
            Some(RawExpression::Node(node)) => Ok(node),
            Some(RawExpression::Other) | None => Err(
                FilterExpressionError::new(FilterExpressionErrorKind::InvalidStructure),
            ),
        }
    }

    /// The junction that the expression object denotes.
    fn to_junction(&self, conjunction: bool) -> (built: Result<ExprData, FilterExpressionError>)
        ensures
            built_view(built) == match self@.args {
                Some(wire_model::RawArgsV::Nodes(nodes)) => {
                    let branches = wire_model::flattened(conjunction, wire_model::built_all(nodes));
                    Ok(
                        if conjunction {
                            model::ExprV::And(branches)
                        } else {
                            model::ExprV::Or(branches)
                        },
                    )
                },
                _ => Err(FilterExpressionErrorKind::InvalidStructure),
            },
        decreases self, 0int,
    {
        let nodes = match &self.args {
            Some(RawArgs::Nodes(nodes)) => nodes,
            Some(RawArgs::Other) | None => return Err(
                FilterExpressionError::new(FilterExpressionErrorKind::InvalidStructure),
            ),
        };
        proof {
            lemma_node_views(*nodes);
        }
        let expressions = build_branches(nodes, conjunction);
        proof {
            matching::lemma_junction_views(expressions);
        }
        Ok(
            if conjunction {
                ExprData::And(expressions)
            } else {
                ExprData::Or(expressions)
            },
        )
    }

    /// The relation that the expression object denotes. A nested expression
    /// that cannot be built is kept as the reason against it.
    fn to_relation(&self) -> (built: Result<ExprData, FilterExpressionError>)
        ensures
            built_view(built) == wire_model::built_relation(self@),
        decreases self, 0int,
    {
        let label = match Self::take_string(&self.quantifier) {
            Ok(label) => label,
            Err(error) => return Err(error),
        };
        let quantifier = match RelationQuantifier::from_label(label) {
            Some(quantifier) => quantifier,
            None => return Err(
                FilterExpressionError::new(FilterExpressionErrorKind::UnknownQuantifier),
            ),
        };
        let field = match Self::take_string(&self.field) {
            Ok(field) => field,
            Err(error) => return Err(error),
        };
        if !matching::valid_wire_name(field) {
            return Err(FilterExpressionError::new(FilterExpressionErrorKind::UnknownField));
        }
        let node = match Self::take_nested(&self.expression) {
            Ok(node) => node,
            Err(error) => return Err(error),
        };
        assert(decreases_to!(self => self.expression));
        let expression = match node.to_expression() {
            Ok(expression) => expression,
            Err(error) => ExprData::Invalid(error.kind()),
        };
        Ok(
            ExprData::Predicate(
                Predicate::from_wire(
                    String::from_str(field),
                    PredicateData::Relation(
                        RelationPredicate { quantifier, expression: Box::new(expression) },
                    ),
                ),
            ),
        )
    }

    /// The scalar test that the expression object denotes.
    fn to_scalar(&self, operator: &str) -> (built: Result<ExprData, FilterExpressionError>)
        ensures
            built_view(built) == wire_model::built_scalar(operator@, self@),
    {
        let operator = match TextOperator::from_label(operator) {
            Some(operator) => operator,
            None => return Err(
                FilterExpressionError::new(FilterExpressionErrorKind::UnknownOperator),
            ),
        };
        let field = match Self::take_string(&self.field) {
            Ok(field) => field,
            Err(error) => return Err(error),
        };
        if !matching::valid_wire_name(field) {
            return Err(FilterExpressionError::new(FilterExpressionErrorKind::UnknownField));
        }
        let data = match (&self.value, operator.set_operator()) {
            (Some(WireValue::String(value)), _) => {
                let mut values: Vec<String> = Vec::new();
                values.push(value.clone());
                assert(matching::texts(values@) =~= seq![value@]);
                PredicateData::WireString(
                    WireStringPredicate { operator, values, resolved: None },
                )
            },
            (Some(WireValue::Strings(values)), _) => PredicateData::WireString(
                WireStringPredicate {
                    operator,
                    values: matching::copy_texts(values),
                    resolved: None,
                },
            ),
            (Some(WireValue::Bool(value)), Some(operator)) => {
                let mut values: Vec<bool> = Vec::new();
                values.push(*value);
                assert(values@ =~= seq![*value]);
                PredicateData::WireBool(WireBoolPredicate { operator, values, resolved: false })
            },
            (Some(WireValue::Bools(values)), Some(operator)) => PredicateData::WireBool(
                WireBoolPredicate { operator, values: copy_bools(values), resolved: false },
            ),
            (Some(WireValue::Empty), Some(operator)) => PredicateData::WireEmpty(
                WireEmptyPredicate { operator, resolved: None },
            ),
            _ => return Err(FilterExpressionError::new(FilterExpressionErrorKind::InvalidStructure)),
        };
        Ok(ExprData::Predicate(Predicate::from_wire(String::from_str(field), data)))
    }

    /// The expression that the expression object denotes.
    ///
    /// # Errors
    ///
    /// The reason why it denotes none: a shape that its operator does not
    /// take, an unknown operator or quantifier, or a field's name that is no
    /// wire name.
    pub fn to_expression(&self) -> (built: Result<ExprData, FilterExpressionError>)
        ensures
            built_view(built) == wire_model::built(self@),
        decreases self, 1int,
    {
        let operator = match self.operator() {
            Some(operator) => operator,
            None => return Err(
                FilterExpressionError::new(FilterExpressionErrorKind::InvalidStructure),
            ),
        };
        if str_eq(operator, "and") {
            self.to_junction(true)
        } else if str_eq(operator, "or") {
            self.to_junction(false)
        } else if str_eq(operator, "not") {
            let node = match Self::take_nested(&self.expression) {
                Ok(node) => node,
                Err(error) => return Err(error),
            };
            assert(decreases_to!(self => self.expression));
            match node.to_expression() {
                Ok(expression) => Ok(ExprData::Not(Box::new(expression))),
                Err(error) => Err(error),
            }
        } else if str_eq(operator, "relation") {
            self.to_relation()
        } else {
            self.to_scalar(operator)
        }
    }
}

/// The branches of a junction of expression objects. One that cannot be built
/// is kept as the reason against it.
fn build_branches(nodes: &Vec<RawNode>, conjunction: bool) -> (branches: Vec<ExprData>)
    ensures
        matching::views(branches@) == wire_model::flattened(
            conjunction,
            wire_model::built_all(node_views(nodes@)),
        ),
    decreases nodes, 0int,
{
    let ghost denoted = wire_model::built_all(node_views(nodes@));
    let mut branches: Vec<ExprData> = Vec::new();
    let mut index: usize = 0;
    assert(matching::views(branches@) =~= wire_model::flattened(conjunction, denoted.take(0)));
    while index < nodes.len()
        invariant
            index <= nodes@.len(),
            denoted == wire_model::built_all(node_views(nodes@)),
            matching::views(branches@) == wire_model::flattened(
                conjunction,
                denoted.take(index as int),
            ),
        decreases nodes@.len() - index,
    {
        assert(node_views(nodes@)[index as int] == nodes@[index as int]@);
        let expression = match nodes[index].to_expression() {
            Ok(expression) => expression,
            Err(error) => ExprData::Invalid(error.kind()),
        };
        proof {
            let longer = denoted.take(index + 1);
            assert(longer.drop_last() =~= denoted.take(index as int));
            assert(longer.last() == expression@);
        }
        extend_junction(&mut branches, conjunction, expression);
        index += 1;
    }
    assert(denoted.take(denoted.len() as int) =~= denoted);
    branches
}

/// Add an expression to the branches of a junction. A junction of the same
/// kind is joined rather than nested.
fn extend_junction(branches: &mut Vec<ExprData>, conjunction: bool, expression: ExprData)
    ensures
        matching::views(final(branches)@) == matching::views(old(branches)@)
            + wire_model::contribution(conjunction, expression@),
{
    let ghost before = matching::views(branches@);
    match expression {
        ExprData::And(mut nested) => if conjunction {
            proof {
                matching::lemma_junction_views(nested);
            }
            let ghost added = matching::views(nested@);
            branches.append(&mut nested);
            assert(matching::views(branches@) =~= before + added);
        } else {
            let expression = ExprData::And(nested);
            branches.push(expression);
            assert(matching::views(branches@) =~= before + seq![expression@]);
        },
        ExprData::Or(mut nested) => if conjunction {
            let expression = ExprData::Or(nested);
            branches.push(expression);
            assert(matching::views(branches@) =~= before + seq![expression@]);
        } else {
            proof {
                matching::lemma_junction_views(nested);
            }
            let ghost added = matching::views(nested@);
            branches.append(&mut nested);
            assert(matching::views(branches@) =~= before + added);
        },
        expression => {
            branches.push(expression);
            assert(matching::views(branches@) =~= before + seq![expression@]);
        },
    }
}

/// Copy a list of booleans.
fn copy_bools(values: &Vec<bool>) -> (copy: Vec<bool>)
    ensures
        copy@ == values@,
{
    let mut copy: Vec<bool> = Vec::new();
    let mut index: usize = 0;
    while index < values.len()
        invariant
            index <= values@.len(),
            copy@ == values@.take(index as int),
        decreases values@.len() - index,
    {
        copy.push(values[index]);
        index += 1;
        assert(copy@ =~= values@.take(index as int));
    }
    assert(values@.take(values@.len() as int) =~= values@);
    copy
}

} // verus!
