//! The expression tree: its predicates, evaluation, validation and equality.

use vstd::prelude::*;
use vstd::string::*;

use crate::query::error::FilterExpressionError;
use crate::query::error::FilterExpressionErrorKind;
use crate::query::filterable::Filterable;
use crate::query::grammar::RelationQuantifier;
use crate::query::grammar::SetOperator;
use crate::query::grammar::TextOperator;
use crate::query::model;
use crate::query::outside;
use crate::query::private::Predicate;
use crate::text::str_eq;

verus! {

/// A field of a target, as generated code names it.
#[derive(Clone, Copy)]
pub struct FieldId {
    pub target: &'static str,
    pub field: &'static str,
}

/// The views of a list of strings.
pub open spec fn texts(values: Seq<String>) -> Seq<Seq<char>> {
    values.map_values(|value: String| value@)
}

/// What a predicate is bound to and the field it reads.
pub enum PredicateIdentity {
    /// Named by generated code.
    Static(FieldId),
    /// Read from the wire, and bound once a target accepts it.
    Wire { target: Option<&'static str>, field: String },
}

impl PredicateIdentity {
    /// The target that the identity is bound to.
    pub open spec fn bound_target(self) -> Option<Seq<char>> {
        match self {
            PredicateIdentity::Static(id) => Some(id.target@),
            PredicateIdentity::Wire { target, .. } => match target {
                Some(target) => Some(target@),
                None => None,
            },
        }
    }

    /// The field's name.
    pub open spec fn field_name(self) -> Seq<char> {
        match self {
            PredicateIdentity::Static(id) => id.field@,
            PredicateIdentity::Wire { field, .. } => field@,
        }
    }

    /// Copy an identity.
    pub fn clone_internal(&self) -> (copy: PredicateIdentity)
        ensures
            copy == *self,
    {
        match self {
            PredicateIdentity::Static(id) => PredicateIdentity::Static(*id),
            PredicateIdentity::Wire { target, field } => PredicateIdentity::Wire {
                target: *target,
                field: field.clone(),
            },
        }
    }

    /// The field's name.
    pub fn field(&self) -> (field: &str)
        ensures
            field@ == self.field_name(),
    {
        match self {
            PredicateIdentity::Static(id) => id.field,
            PredicateIdentity::Wire { field, .. } => field.as_str(),
        }
    }

    /// The target's name, empty while no target accepted the predicate.
    pub fn target(&self) -> (target: &str)
        ensures
            target@ == match self.bound_target() {
                Some(name) => name,
                None => Seq::empty(),
            },
    {
        match self {
            PredicateIdentity::Static(id) => id.target,
            PredicateIdentity::Wire { target, .. } => match target {
                Some(target) => target,
                None => {
                    proof {
                        reveal_strlit("");
                        assert(""@ =~= Seq::<char>::empty());
                    }
                    ""
                },
            },
        }
    }

    /// Bind the identity to a target. A target named before has to agree.
    pub fn bind_target(&mut self, target: &'static str) -> (result: Result<
        (),
        FilterExpressionError,
    >)
        ensures
            final(self).field_name() == old(self).field_name(),
            match old(self).bound_target() {
                Some(name) => final(self).bound_target() == Some(name) && if name == target@ {
                    result is Ok
                } else {
                    result is Err && result->Err_0@ == FilterExpressionErrorKind::InvalidTarget
                },
                None => result is Ok && final(self).bound_target() == Some(target@),
            },
    {
        match self {
            PredicateIdentity::Static(id) => {
                if str_eq(id.target, target) {
                    Ok(())
                } else {
                    Err(FilterExpressionError::new(FilterExpressionErrorKind::InvalidTarget))
                }
            },
            PredicateIdentity::Wire { target: bound, .. } => match bound {
                Some(name) => {
                    if str_eq(name, target) {
                        Ok(())
                    } else {
                        Err(FilterExpressionError::new(FilterExpressionErrorKind::InvalidTarget))
                    }
                },
                None => {
                    *bound = Some(target);
                    Ok(())
                },
            },
        }
    }

    /// Report whether two identities name one field of one target.
    pub fn same(&self, other: &PredicateIdentity) -> (same: bool)
        ensures
            same == (self.named_target() == other.named_target() && self.field_name()
                == other.field_name()),
    {
        str_eq(self.target(), other.target()) && str_eq(self.field(), other.field())
    }

    /// The target's name, empty while no target accepted the predicate.
    pub open spec fn named_target(self) -> Seq<char> {
        match self.bound_target() {
            Some(name) => name,
            None => Seq::empty(),
        }
    }
}

/// A pattern that compiled, and whether it ignores case.
pub struct CompiledRegex {
    pattern: String,
    ignore_case: bool,
}

impl CompiledRegex {
    /// The pattern and whether it ignores case.
    pub closed spec fn view(&self) -> (Seq<char>, bool) {
        (self.pattern@, self.ignore_case)
    }

    /// Compile a pattern.
    pub fn new(pattern: &str, ignore_case: bool) -> (regex: Result<
        CompiledRegex,
        FilterExpressionError,
    >)
        ensures
            match regex {
                Ok(regex) => outside::pattern_compiles(pattern@, ignore_case) && regex@ == (
                    pattern@,
                    ignore_case,
                ),
                Err(error) => !outside::pattern_compiles(pattern@, ignore_case) && error@
                    == FilterExpressionErrorKind::InvalidRegex,
            },
    {
        if outside::compiles(pattern, ignore_case) {
            Ok(CompiledRegex { pattern: pattern.to_owned(), ignore_case })
        } else {
            Err(FilterExpressionError::new(FilterExpressionErrorKind::InvalidRegex))
        }
    }

    /// Report whether the pattern matches anywhere in a text.
    pub fn is_match(&self, text: &str) -> (found: bool)
        ensures
            found == outside::pattern_found(self@.0, self@.1, text@),
    {
        outside::finds(self.pattern.as_str(), self.ignore_case, text)
    }

    /// Copy a compiled pattern.
    pub fn copy(&self) -> (copy: CompiledRegex)
        ensures
            copy@ == self@,
    {
        CompiledRegex { pattern: self.pattern.clone(), ignore_case: self.ignore_case }
    }
}

/// The pattern that an optional compiled pattern holds.
pub open spec fn regex_view(regex: Option<CompiledRegex>) -> Option<(Seq<char>, bool)> {
    match regex {
        Some(regex) => Some(regex@),
        None => None,
    }
}

/// A text operator, its operands and its compiled pattern.
pub struct TextPredicate {
    pub operator: TextOperator,
    pub values: Vec<String>,
    pub compiled_regex: Option<CompiledRegex>,
}

impl TextPredicate {
    /// The test in the model.
    pub open spec fn view(&self) -> model::TextV {
        model::TextV {
            operator: self.operator,
            values: texts(self.values@),
            regex: regex_view(self.compiled_regex),
        }
    }

    /// Copy a text test.
    pub fn copy(&self) -> (copy: TextPredicate)
        ensures
            copy@ == self@,
    {
        let values = self.values.clone();
        assert(texts(values@) =~= texts(self.values@));
        let compiled_regex = match &self.compiled_regex {
            Some(regex) => Some(regex.copy()),
            None => None,
        };
        TextPredicate { operator: self.operator, values, compiled_regex }
    }
}

/// An operator and the values that it compares against.
pub struct SetPredicate<T> {
    pub operator: SetOperator,
    pub values: Vec<T>,
}

impl<T> SetPredicate<T> {
    /// The test in the model.
    pub open spec fn view(&self) -> model::SetV<T> {
        model::SetV { operator: self.operator, values: self.values@ }
    }

    /// Report whether the operator and its number of operands agree.
    ///
    /// `eq` takes one value and an ordering operator takes one bound; only
    /// `in` and `not_in` take a set.
    pub fn has_valid_shape(&self) -> (valid: bool)
        ensures
            valid == model::set_shape(self.operator, self.values@.len()),
    {
        if self.operator == SetOperator::Eq || self.operator.is_ordering() {
            self.values.len() == 1
        } else {
            true
        }
    }
}

/// The test on strings in the model.
pub open spec fn strings_view(set: SetPredicate<String>) -> model::SetV<Seq<char>> {
    model::SetV { operator: set.operator, values: texts(set.values@) }
}

/// How related values have to match, and the expression they have to match.
pub struct RelationPredicate {
    pub quantifier: RelationQuantifier,
    pub expression: Box<ExprData>,
}

/// What the string literals of a wire predicate turned out to denote.
pub enum WireStringResolved {
    Text(TextPredicate),
    Signed(SetPredicate<i128>),
    Unsigned(SetPredicate<u128>),
    Enum(SetPredicate<String>),
}

impl WireStringResolved {
    /// The reading in the model.
    pub open spec fn view(&self) -> model::StringResolvedV {
        match self {
            WireStringResolved::Text(text) => model::StringResolvedV::Text(text@),
            WireStringResolved::Signed(set) => model::StringResolvedV::Signed(set@),
            WireStringResolved::Unsigned(set) => model::StringResolvedV::Unsigned(set@),
            WireStringResolved::Enum(set) => model::StringResolvedV::Enum(strings_view(*set)),
        }
    }
}

/// The family that an empty set of literals turned out to have.
#[derive(Clone, Copy, Debug, PartialEq, Eq, Structural)]
pub enum WireEmptyResolved {
    Text,
    Bool,
    Signed,
    Unsigned,
    Enum,
}

/// The operator and operands of a predicate. The wire forms hold literals
/// whose family only the target's field decides.
pub enum PredicateData {
    Text(TextPredicate),
    Bool(SetPredicate<bool>),
    Signed(SetPredicate<i128>),
    Unsigned(SetPredicate<u128>),
    Enum(SetPredicate<String>),
    Relation(RelationPredicate),
    WireString(WireStringPredicate),
    WireBool(WireBoolPredicate),
    WireEmpty(WireEmptyPredicate),
}

/// String literals from the wire.
pub struct WireStringPredicate {
    pub operator: TextOperator,
    pub values: Vec<String>,
    pub resolved: Option<WireStringResolved>,
}

/// Boolean literals from the wire.
pub struct WireBoolPredicate {
    pub operator: SetOperator,
    pub values: Vec<bool>,
    pub resolved: bool,
}

/// An empty set of literals from the wire.
pub struct WireEmptyPredicate {
    pub operator: SetOperator,
    pub resolved: Option<WireEmptyResolved>,
}

/// A filter expression.
pub enum ExprData {
    Predicate(Predicate),
    And(Vec<ExprData>),
    Or(Vec<ExprData>),
    Not(Box<ExprData>),
    Invalid(FilterExpressionErrorKind),
}

impl PredicateData {
    /// The test in the model.
    pub open spec fn view(&self) -> model::DataV
        decreases self,
    {
        match self {
            PredicateData::Text(text) => model::DataV::Text(text@),
            PredicateData::Bool(set) => model::DataV::Bool(set@),
            PredicateData::Signed(set) => model::DataV::Signed(set@),
            PredicateData::Unsigned(set) => model::DataV::Unsigned(set@),
            PredicateData::Enum(set) => model::DataV::Enum(strings_view(*set)),
            PredicateData::Relation(relation) => model::DataV::Relation(
                relation.quantifier,
                Box::new(relation.expression.view()),
            ),
            PredicateData::WireString(wire) => model::DataV::WireString {
                operator: wire.operator,
                values: texts(wire.values@),
                resolved: match wire.resolved {
                    Some(reading) => Some(reading@),
                    None => None,
                },
            },
            PredicateData::WireBool(wire) => model::DataV::WireBool {
                operator: wire.operator,
                values: wire.values@,
                resolved: wire.resolved,
            },
            PredicateData::WireEmpty(wire) => model::DataV::WireEmpty {
                operator: wire.operator,
                resolved: wire.resolved,
            },
        }
    }
}

/// The views of a list of expressions.
pub open spec fn views(expressions: Seq<ExprData>) -> Seq<model::ExprV> {
    expressions.map_values(|expression: ExprData| expression@)
}

impl ExprData {
    /// The expression in the model.
    pub open spec fn view(&self) -> model::ExprV
        decreases self,
    {
        match self {
            ExprData::Predicate(predicate) => model::ExprV::Predicate(predicate.view()),
            ExprData::And(expressions) => model::ExprV::And(
                Seq::new(
                    expressions@.len(),
                    |i: int|
                        if 0 <= i < expressions@.len() {
                            expressions@[i].view()
                        } else {
                            arbitrary()
                        },
                ),
            ),
            ExprData::Or(expressions) => model::ExprV::Or(
                Seq::new(
                    expressions@.len(),
                    |i: int|
                        if 0 <= i < expressions@.len() {
                            expressions@[i].view()
                        } else {
                            arbitrary()
                        },
                ),
            ),
            ExprData::Not(expression) => model::ExprV::Not(Box::new(expression.view())),
            ExprData::Invalid(kind) => model::ExprV::Invalid(*kind),
        }
    }
}

/// A junction's view lists the views of its branches.
pub proof fn lemma_junction_views(expressions: Vec<ExprData>)
    ensures
        ExprData::And(expressions)@ == model::ExprV::And(views(expressions@)),
        ExprData::Or(expressions)@ == model::ExprV::Or(views(expressions@)),
{
    assert(ExprData::And(expressions)@->And_0 =~= views(expressions@));
    assert(ExprData::Or(expressions)@->Or_0 =~= views(expressions@));
}

/// A predicate's test once its literals are known to belong to one family.
#[derive(Clone, Copy)]
pub enum ResolvedScalar<'a> {
    Text(TextOperator, &'a [String], Option<&'a CompiledRegex>),
    Bool(SetOperator, &'a [bool]),
    Signed(SetOperator, &'a [i128]),
    Unsigned(SetOperator, &'a [u128]),
    Enum(SetOperator, &'a [String]),
}

impl<'a> ResolvedScalar<'a> {
    /// The test in the model.
    pub open spec fn view(&self) -> model::ScalarV {
        match self {
            ResolvedScalar::Text(operator, values, regex) => model::ScalarV::Text(
                model::TextV {
                    operator: *operator,
                    values: texts(values@),
                    regex: match regex {
                        Some(regex) => Some(regex@),
                        None => None,
                    },
                },
            ),
            ResolvedScalar::Bool(operator, values) => model::ScalarV::Bool(
                model::SetV { operator: *operator, values: values@ },
            ),
            ResolvedScalar::Signed(operator, values) => model::ScalarV::Signed(
                model::SetV { operator: *operator, values: values@ },
            ),
            ResolvedScalar::Unsigned(operator, values) => model::ScalarV::Unsigned(
                model::SetV { operator: *operator, values: values@ },
            ),
            ResolvedScalar::Enum(operator, values) => model::ScalarV::Enum(
                model::SetV { operator: *operator, values: texts(values@) },
            ),
        }
    }
}

/// The model of an optional scalar test.
pub open spec fn scalar_view(scalar: Option<ResolvedScalar<'_>>) -> Option<model::ScalarV> {
    match scalar {
        Some(scalar) => Some(scalar@),
        None => None,
    }
}

impl PredicateData {
    /// The wire spelling of the operator.
    pub fn operator_label(&self) -> (label: &'static str)
        ensures
            label@ == self@.operator_spelling(),
    {
        match self {
            PredicateData::Text(predicate) => predicate.operator.label(),
            PredicateData::Bool(predicate) => predicate.operator.label(),
            PredicateData::Signed(predicate) => predicate.operator.label(),
            PredicateData::Unsigned(predicate) => predicate.operator.label(),
            PredicateData::Enum(predicate) => predicate.operator.label(),
            PredicateData::Relation(_) => "relation",
            PredicateData::WireString(predicate) => predicate.operator.label(),
            PredicateData::WireBool(predicate) => predicate.operator.label(),
            PredicateData::WireEmpty(predicate) => predicate.operator.label(),
        }
    }

    /// The scalar test, where there is one and its family is known.
    pub fn scalar(&self) -> (scalar: Option<ResolvedScalar<'_>>)
        ensures
            scalar_view(scalar) == self@.scalar(),
    {
        match self {
            PredicateData::Text(predicate) => Some(
                ResolvedScalar::Text(
                    predicate.operator,
                    predicate.values.as_slice(),
                    predicate.compiled_regex.as_ref(),
                ),
            ),
            PredicateData::Bool(predicate) => Some(
                ResolvedScalar::Bool(predicate.operator, predicate.values.as_slice()),
            ),
            PredicateData::Signed(predicate) => Some(
                ResolvedScalar::Signed(predicate.operator, predicate.values.as_slice()),
            ),
            PredicateData::Unsigned(predicate) => Some(
                ResolvedScalar::Unsigned(predicate.operator, predicate.values.as_slice()),
            ),
            PredicateData::Enum(predicate) => Some(
                ResolvedScalar::Enum(predicate.operator, predicate.values.as_slice()),
            ),
            PredicateData::WireString(predicate) => match &predicate.resolved {
                None => None,
                Some(WireStringResolved::Text(value)) => Some(
                    ResolvedScalar::Text(
                        value.operator,
                        value.values.as_slice(),
                        value.compiled_regex.as_ref(),
                    ),
                ),
                Some(WireStringResolved::Signed(value)) => Some(
                    ResolvedScalar::Signed(value.operator, value.values.as_slice()),
                ),
                Some(WireStringResolved::Unsigned(value)) => Some(
                    ResolvedScalar::Unsigned(value.operator, value.values.as_slice()),
                ),
                Some(WireStringResolved::Enum(value)) => Some(
                    ResolvedScalar::Enum(value.operator, value.values.as_slice()),
                ),
            },
            PredicateData::WireBool(predicate) => if predicate.resolved {
                Some(ResolvedScalar::Bool(predicate.operator, predicate.values.as_slice()))
            } else {
                None
            },
            PredicateData::WireEmpty(predicate) => {
                let operator = predicate.operator;
                let scalar: Option<ResolvedScalar<'_>> = match predicate.resolved {
                    None => None,
                    Some(WireEmptyResolved::Text) => match TextOperator::from_set(operator) {
                        Some(operator) => Some(ResolvedScalar::Text(operator, &[], None)),
                        None => None,
                    },
                    Some(WireEmptyResolved::Bool) => Some(ResolvedScalar::Bool(operator, &[])),
                    Some(WireEmptyResolved::Signed) => Some(ResolvedScalar::Signed(operator, &[])),
                    Some(WireEmptyResolved::Unsigned) => Some(
                        ResolvedScalar::Unsigned(operator, &[]),
                    ),
                    Some(WireEmptyResolved::Enum) => Some(ResolvedScalar::Enum(operator, &[])),
                };
                assert(scalar_view(scalar) =~~= self@.scalar());
                scalar
            },
            PredicateData::Relation(_) => None,
        }
    }

    /// Whether the family of the literals is known.
    pub fn is_resolved(&self) -> (resolved: bool)
        ensures
            resolved == self@.is_resolved(),
    {
        match self {
            PredicateData::WireString(predicate) => predicate.resolved.is_some(),
            PredicateData::WireBool(predicate) => predicate.resolved,
            PredicateData::WireEmpty(predicate) => predicate.resolved.is_some(),
            PredicateData::Text(_)
            | PredicateData::Bool(_)
            | PredicateData::Signed(_)
            | PredicateData::Unsigned(_)
            | PredicateData::Enum(_)
            | PredicateData::Relation(_) => true,
        }
    }
}

/// A value that operators can compare.
pub trait SetValue: Copy {
    /// The number that orders the values.
    spec fn number(self) -> int;

    /// Report whether two values are one value.
    fn same(self, other: Self) -> (same: bool)
        ensures
            same == (self.number() == other.number()),
    ;

    /// Report whether one value comes before another.
    fn before(self, other: Self) -> (before: bool)
        ensures
            before == (self.number() < other.number()),
    ;
}

impl SetValue for bool {
    open spec fn number(self) -> int {
        model::bool_number(self)
    }

    fn same(self, other: bool) -> (same: bool) {
        self == other
    }

    fn before(self, other: bool) -> (before: bool) {
        !self && other
    }
}

impl SetValue for i128 {
    open spec fn number(self) -> int {
        self as int
    }

    fn same(self, other: i128) -> (same: bool) {
        self == other
    }

    fn before(self, other: i128) -> (before: bool) {
        self < other
    }
}

impl SetValue for u128 {
    open spec fn number(self) -> int {
        self as int
    }

    fn same(self, other: u128) -> (same: bool) {
        self == other
    }

    fn before(self, other: u128) -> (before: bool) {
        self < other
    }
}

/// The numbers of a list of values.
pub open spec fn numbers<T: SetValue>(values: Seq<T>) -> Seq<int> {
    values.map_values(|value: T| value.number())
}

/// Report whether a value is in a list.
fn listed<T: SetValue>(values: &[T], candidate: T) -> (found: bool)
    ensures
        found == numbers(values@).contains(candidate.number()),
{
    let mut index: usize = 0;
    while index < values.len()
        invariant
            index <= values@.len(),
            forall|i: int| 0 <= i < index ==> numbers(values@)[i] != candidate.number(),
        decreases values@.len() - index,
    {
        if values[index].same(candidate) {
            assert(numbers(values@)[index as int] == candidate.number());
            return true;
        }
        index += 1;
    }
    false
}

/// Evaluate one operator against its operands.
///
/// Ordering compares against the single bound that a valid shape has; without
/// one nothing matches.
pub fn set_matches<T: SetValue>(operator: SetOperator, values: &[T], candidate: T) -> (passes: bool)
    ensures
        passes == model::number_passes(operator, numbers(values@), candidate.number()),
{
    match operator {
        SetOperator::Eq | SetOperator::In => listed(values, candidate),
        SetOperator::NotIn => !listed(values, candidate),
        SetOperator::Lt => values.len() > 0 && candidate.before(values[0]),
        SetOperator::Lte => values.len() > 0 && !values[0].before(candidate),
        SetOperator::Gt => values.len() > 0 && values[0].before(candidate),
        SetOperator::Gte => values.len() > 0 && !candidate.before(values[0]),
    }
}

/// Report whether a text is in a list.
pub fn listed_text(values: &[String], candidate: &str) -> (found: bool)
    ensures
        found == texts(values@).contains(candidate@),
{
    let mut index: usize = 0;
    while index < values.len()
        invariant
            index <= values@.len(),
            forall|i: int| 0 <= i < index ==> texts(values@)[i] != candidate@,
        decreases values@.len() - index,
    {
        if str_eq(values[index].as_str(), candidate) {
            assert(texts(values@)[index as int] == candidate@);
            return true;
        }
        index += 1;
    }
    false
}

impl WireStringResolved {
    /// Copy a reading.
    pub fn copy(&self) -> (copy: WireStringResolved)
        ensures
            copy@ == self@,
    {
        match self {
            WireStringResolved::Text(text) => WireStringResolved::Text(text.copy()),
            WireStringResolved::Signed(set) => WireStringResolved::Signed(copy_set(set)),
            WireStringResolved::Unsigned(set) => WireStringResolved::Unsigned(copy_set(set)),
            WireStringResolved::Enum(set) => WireStringResolved::Enum(copy_strings(set)),
        }
    }
}

/// Copy a test on comparable values.
fn copy_set<T: SetValue>(set: &SetPredicate<T>) -> (copy: SetPredicate<T>)
    ensures
        copy@ == set@,
{
    let mut values: Vec<T> = Vec::new();
    let mut index: usize = 0;
    while index < set.values.len()
        invariant
            index <= set.values@.len(),
            values@ == set.values@.take(index as int),
        decreases set.values@.len() - index,
    {
        values.push(set.values[index]);
        index += 1;
    }
    assert(values@ =~= set.values@);
    SetPredicate { operator: set.operator, values }
}

/// Copy a list of strings.
pub fn copy_texts(values: &Vec<String>) -> (copy: Vec<String>)
    ensures
        texts(copy@) == texts(values@),
{
    let copy = values.clone();
    assert(texts(copy@) =~= texts(values@));
    copy
}

/// Copy a test on strings.
fn copy_strings(set: &SetPredicate<String>) -> (copy: SetPredicate<String>)
    ensures
        strings_view(copy) == strings_view(*set),
{
    SetPredicate { operator: set.operator, values: copy_texts(&set.values) }
}

impl PredicateData {
    /// Copy a test.
    pub fn copy(&self) -> (copy: PredicateData)
        ensures
            copy@ == self@,
        decreases self,
    {
        match self {
            PredicateData::Text(text) => PredicateData::Text(text.copy()),
            PredicateData::Bool(set) => PredicateData::Bool(copy_set(set)),
            PredicateData::Signed(set) => PredicateData::Signed(copy_set(set)),
            PredicateData::Unsigned(set) => PredicateData::Unsigned(copy_set(set)),
            PredicateData::Enum(set) => PredicateData::Enum(copy_strings(set)),
            PredicateData::Relation(relation) => PredicateData::Relation(
                RelationPredicate {
                    quantifier: relation.quantifier,
                    expression: Box::new(relation.expression.copy()),
                },
            ),
            PredicateData::WireString(wire) => PredicateData::WireString(
                WireStringPredicate {
                    operator: wire.operator,
                    values: copy_texts(&wire.values),
                    resolved: match &wire.resolved {
                        Some(reading) => Some(reading.copy()),
                        None => None,
                    },
                },
            ),
            PredicateData::WireBool(wire) => {
                let values = wire.values.clone();
                assert(values@ =~= wire.values@);
                PredicateData::WireBool(
                    WireBoolPredicate { operator: wire.operator, values, resolved: wire.resolved },
                )
            },
            PredicateData::WireEmpty(wire) => PredicateData::WireEmpty(
                WireEmptyPredicate { operator: wire.operator, resolved: wire.resolved },
            ),
        }
    }

    /// Report whether two tests are one test.
    pub fn same(&self, other: &PredicateData) -> (same: bool)
        ensures
            same == model::same_data(self@, other@),
        decreases self,
    {
        match (self, other) {
            (PredicateData::Relation(left), PredicateData::Relation(right)) => left.quantifier
                == right.quantifier && left.expression.same(&right.expression),
            _ => same_scalars(self.scalar(), other.scalar()),
        }
    }
}

/// Report whether two lists of strings are one list.
pub(crate) fn same_texts(left: &[String], right: &[String]) -> (same: bool)
    ensures
        same == (texts(left@) == texts(right@)),
{
    if left.len() != right.len() {
        assert(texts(left@).len() != texts(right@).len());
        return false;
    }
    let mut index: usize = 0;
    while index < left.len()
        invariant
            index <= left@.len(),
            left@.len() == right@.len(),
            forall|i: int| 0 <= i < index ==> texts(left@)[i] == texts(right@)[i],
        decreases left@.len() - index,
    {
        if !str_eq(left[index].as_str(), right[index].as_str()) {
            assert(texts(left@)[index as int] != texts(right@)[index as int]);
            return false;
        }
        index += 1;
    }
    assert(texts(left@) =~= texts(right@));
    true
}

/// Report whether two lists of booleans are one list.
pub(crate) fn same_bools(left: &[bool], right: &[bool]) -> (same: bool)
    ensures
        same == (left@ == right@),
{
    if left.len() != right.len() {
        return false;
    }
    let mut index: usize = 0;
    while index < left.len()
        invariant
            index <= left@.len(),
            left@.len() == right@.len(),
            forall|i: int| 0 <= i < index ==> left@[i] == right@[i],
        decreases left@.len() - index,
    {
        if left[index] != right[index] {
            return false;
        }
        index += 1;
    }
    assert(left@ =~= right@);
    true
}

/// Report whether two lists of signed integers are one list.
pub(crate) fn same_signed(left: &[i128], right: &[i128]) -> (same: bool)
    ensures
        same == (left@ == right@),
{
    if left.len() != right.len() {
        return false;
    }
    let mut index: usize = 0;
    while index < left.len()
        invariant
            index <= left@.len(),
            left@.len() == right@.len(),
            forall|i: int| 0 <= i < index ==> left@[i] == right@[i],
        decreases left@.len() - index,
    {
        if left[index] != right[index] {
            return false;
        }
        index += 1;
    }
    assert(left@ =~= right@);
    true
}

/// Report whether two lists of unsigned integers are one list.
pub(crate) fn same_unsigned(left: &[u128], right: &[u128]) -> (same: bool)
    ensures
        same == (left@ == right@),
{
    if left.len() != right.len() {
        return false;
    }
    let mut index: usize = 0;
    while index < left.len()
        invariant
            index <= left@.len(),
            left@.len() == right@.len(),
            forall|i: int| 0 <= i < index ==> left@[i] == right@[i],
        decreases left@.len() - index,
    {
        if left[index] != right[index] {
            return false;
        }
        index += 1;
    }
    assert(left@ =~= right@);
    true
}

/// Report whether two scalar tests are one test.
pub fn same_scalars(
    left: Option<ResolvedScalar<'_>>,
    right: Option<ResolvedScalar<'_>>,
) -> (same: bool)
    ensures
        same == model::same_scalar(scalar_view(left), scalar_view(right)),
{
    match (left, right) {
        (
            Some(ResolvedScalar::Text(left_operator, left_values, _)),
            Some(ResolvedScalar::Text(right_operator, right_values, _)),
        ) => left_operator == right_operator && same_texts(left_values, right_values),
        (
            Some(ResolvedScalar::Bool(left_operator, left_values)),
            Some(ResolvedScalar::Bool(right_operator, right_values)),
        ) => left_operator == right_operator && same_bools(left_values, right_values),
        (
            Some(ResolvedScalar::Signed(left_operator, left_values)),
            Some(ResolvedScalar::Signed(right_operator, right_values)),
        ) => left_operator == right_operator && same_signed(left_values, right_values),
        (
            Some(ResolvedScalar::Unsigned(left_operator, left_values)),
            Some(ResolvedScalar::Unsigned(right_operator, right_values)),
        ) => left_operator == right_operator && same_unsigned(left_values, right_values),
        (
            Some(ResolvedScalar::Enum(left_operator, left_values)),
            Some(ResolvedScalar::Enum(right_operator, right_values)),
        ) => left_operator == right_operator && same_texts(left_values, right_values),
        (None, None) => true,
        _ => false,
    }
}

impl ExprData {
    /// Copy an expression.
    pub fn copy(&self) -> (copy: ExprData)
        ensures
            copy@ == self@,
        decreases self,
    {
        match self {
            ExprData::Predicate(predicate) => ExprData::Predicate(predicate.clone_internal()),
            ExprData::And(expressions) => {
                let copy = copy_expressions(expressions);
                proof {
                    lemma_junction_views(copy);
                    lemma_junction_views(*expressions);
                }
                ExprData::And(copy)
            },
            ExprData::Or(expressions) => {
                let copy = copy_expressions(expressions);
                proof {
                    lemma_junction_views(copy);
                    lemma_junction_views(*expressions);
                }
                ExprData::Or(copy)
            },
            ExprData::Not(expression) => ExprData::Not(Box::new(expression.copy())),
            ExprData::Invalid(kind) => ExprData::Invalid(*kind),
        }
    }

    /// Report whether two expressions are one expression, branch by branch.
    pub fn same(&self, other: &ExprData) -> (same: bool)
        ensures
            same == model::same_expression(self@, other@),
        decreases self,
    {
        match (self, other) {
            (ExprData::Predicate(left), ExprData::Predicate(right)) => left.eq_internal(right),
            (ExprData::And(left), ExprData::And(right)) => {
                proof {
                    lemma_junction_views(*left);
                    lemma_junction_views(*right);
                }
                same_branches(left, right)
            },
            (ExprData::Or(left), ExprData::Or(right)) => {
                proof {
                    lemma_junction_views(*left);
                    lemma_junction_views(*right);
                }
                same_branches(left, right)
            },
            (ExprData::Not(left), ExprData::Not(right)) => left.same(right),
            (ExprData::Invalid(left), ExprData::Invalid(right)) => *left == *right,
            _ => false,
        }
    }
}

/// Copy a list of expressions.
fn copy_expressions(expressions: &Vec<ExprData>) -> (copy: Vec<ExprData>)
    ensures
        views(copy@) == views(expressions@),
    decreases expressions,
{
    let mut copy: Vec<ExprData> = Vec::new();
    let mut index: usize = 0;
    while index < expressions.len()
        invariant
            index <= expressions@.len(),
            copy@.len() == index,
            forall|i: int| 0 <= i < index ==> (#[trigger] copy@[i])@ == expressions@[i]@,
        decreases expressions@.len() - index,
    {
        copy.push(expressions[index].copy());
        index += 1;
    }
    assert(views(copy@) =~= views(expressions@));
    copy
}

/// Report whether two lists of expressions agree, branch by branch.
fn same_branches(left: &Vec<ExprData>, right: &Vec<ExprData>) -> (same: bool)
    ensures
        same == model::same_branches(views(left@), views(right@)),
    decreases left,
{
    if left.len() != right.len() {
        return false;
    }
    let mut index: usize = 0;
    while index < left.len()
        invariant
            index <= left@.len(),
            left@.len() == right@.len(),
            forall|i: int|
                0 <= i < index ==> model::same_expression(
                    #[trigger] views(left@)[i],
                    views(right@)[i],
                ),
        decreases left@.len() - index,
    {
        if !left[index].same(&right[index]) {
            assert(!model::same_expression(
                views(left@)[index as int],
                views(right@)[index as int],
            ));
            return false;
        }
        index += 1;
    }
    true
}

/// Report whether a candidate matches an expression.
pub fn evaluate<T: Filterable>(expression: &ExprData, candidate: &T) -> (passes: bool)
    ensures
        passes == model::accepts(expression@, candidate),
    decreases expression,
{
    match expression {
        ExprData::Predicate(predicate) => candidate.filter_matches(predicate),
        ExprData::And(expressions) => {
            proof {
                lemma_junction_views(*expressions);
            }
            all_match(expressions, candidate)
        },
        ExprData::Or(expressions) => {
            proof {
                lemma_junction_views(*expressions);
            }
            any_matches(expressions, candidate)
        },
        ExprData::Not(expression) => !evaluate(expression, candidate),
        ExprData::Invalid(_) => false,
    }
}

/// Report whether a candidate matches every expression of a list.
fn all_match<T: Filterable>(expressions: &Vec<ExprData>, candidate: &T) -> (passes: bool)
    ensures
        passes == model::all_accept(views(expressions@), candidate),
    decreases expressions,
{
    let mut index: usize = 0;
    while index < expressions.len()
        invariant
            index <= expressions@.len(),
            forall|i: int|
                0 <= i < index ==> model::accepts(#[trigger] views(expressions@)[i], candidate),
        decreases expressions@.len() - index,
    {
        if !evaluate(&expressions[index], candidate) {
            assert(!model::accepts(views(expressions@)[index as int], candidate));
            return false;
        }
        index += 1;
    }
    true
}

/// Report whether a candidate matches some expression of a list.
fn any_matches<T: Filterable>(expressions: &Vec<ExprData>, candidate: &T) -> (passes: bool)
    ensures
        passes == model::any_accepts(views(expressions@), candidate),
    decreases expressions,
{
    let mut index: usize = 0;
    while index < expressions.len()
        invariant
            index <= expressions@.len(),
            forall|i: int|
                0 <= i < index ==> !model::accepts(#[trigger] views(expressions@)[i], candidate),
        decreases expressions@.len() - index,
    {
        if evaluate(&expressions[index], candidate) {
            assert(model::accepts(views(expressions@)[index as int], candidate));
            return true;
        }
        index += 1;
    }
    false
}

/// Validate an expression against a target, settling the family of its
/// literals. Every branch is visited and the first reason stands.
pub fn validate_expression<T: Filterable>(expression: &mut ExprData) -> (result: Result<
    (),
    FilterExpressionError,
>)
    ensures
        (crate::query::error::reason(result), final(expression)@) == model::validated::<T>(
            old(expression)@,
        ),
    decreases *old(expression),
{
    match expression {
        ExprData::Predicate(predicate) => {
            match predicate.bind_target_internal(T::filter_target()) {
                Ok(()) => {},
                Err(error) => return Err(error),
            }
            if !valid_wire_name(predicate.field()) {
                return Err(FilterExpressionError::new(FilterExpressionErrorKind::UnknownField));
            }
            T::filter_validate(predicate)
        },
        ExprData::And(expressions) => {
            let ghost before = *expressions;
            let result = validate_branches::<T>(expressions);
            proof {
                lemma_junction_views(before);
                lemma_junction_views(*expressions);
            }
            result
        },
        ExprData::Or(expressions) => {
            let ghost before = *expressions;
            let result = validate_branches::<T>(expressions);
            proof {
                lemma_junction_views(before);
                lemma_junction_views(*expressions);
            }
            result
        },
        ExprData::Not(expression) => validate_expression::<T>(expression),
        ExprData::Invalid(kind) => Err(FilterExpressionError::new(*kind)),
    }
}

/// Report whether a name can travel on the wire.
pub fn valid_wire_name(value: &str) -> (valid: bool)
    ensures
        valid == model::wire_name(value@),
{
    let characters = crate::text::to_chars(value);
    if characters.len() == 0 || !('a' <= characters[0] && characters[0] <= 'z') {
        return false;
    }
    let mut index: usize = 1;
    while index < characters.len()
        invariant
            1 <= index <= characters@.len(),
            characters@ == value@,
            forall|i: int| 0 < i < index ==> model::wire_character(#[trigger] value@[i]),
        decreases characters@.len() - index,
    {
        let character = characters[index];
        if !(('a' <= character && character <= 'z') || ('0' <= character && character <= '9')
            || character == '_') {
            assert(!model::wire_character(value@[index as int]));
            return false;
        }
        index += 1;
    }
    true
}

/// Validate every expression of a list; the first reason stands.
fn validate_branches<T: Filterable>(expressions: &mut Vec<ExprData>) -> (result: Result<
    (),
    FilterExpressionError,
>)
    ensures
        ({
            let outcomes = model::validated_branches::<T>(views(old(expressions)@));
            &&& views(final(expressions)@) == model::values(outcomes)
            &&& crate::query::error::reason(result) == model::first_reason(
                model::reasons(outcomes),
            )
        }),
    decreases *old(expressions),
{
    let ghost before = expressions@;
    let ghost outcomes = model::validated_branches::<T>(views(before));
    let ghost reasons = model::reasons(outcomes);
    assert(reasons.skip(0) =~= reasons);
    let mut first: Option<FilterExpressionError> = None;
    let mut index: usize = 0;
    while index < expressions.len()
        invariant
            index <= expressions@.len(),
            expressions@.len() == before.len(),
            old(expressions)@ == before,
            outcomes == model::validated_branches::<T>(views(before)),
            reasons == model::reasons(outcomes),
            forall|i: int|
                0 <= i < index ==> (#[trigger] expressions@[i])@ == outcomes[i].1,
            forall|i: int| index <= i < before.len() ==> #[trigger] expressions@[i] == before[i],
            match first {
                Some(error) => model::first_reason(reasons) == Some(error@),
                None => model::first_reason(reasons) == model::first_reason(
                    reasons.skip(index as int),
                ),
            },
        decreases expressions@.len() - index,
    {
        assert(decreases_to!(*old(expressions) => before[index as int]));
        let result = validate_expression::<T>(&mut expressions[index]);
        proof {
            let rest = reasons.skip(index as int);
            assert(rest[0] == reasons[index as int]);
            assert(outcomes[index as int] == model::validated::<T>(before[index as int]@));
            assert(rest.skip(1) =~= reasons.skip(index + 1));
        }
        match result {
            Ok(()) => {},
            Err(error) => {
                if first.is_none() {
                    first = Some(error);
                }
            },
        }
        index += 1;
    }
    proof {
        assert(reasons.skip(reasons.len() as int) =~= Seq::empty());
        assert(views(expressions@) =~= model::values(outcomes));
    }
    match first {
        Some(error) => Err(error),
        None => Ok(()),
    }
}

/// Check that every target of an expression is a wire name, and outside
/// relations the expected one.
pub fn validate_wire_targets(expression: &ExprData, expected_target: Option<&str>) -> (result: Result<
    (),
    FilterExpressionError,
>)
    ensures
        match result {
            Ok(()) => model::wire_targets(expression@, optional_text(expected_target)),
            Err(error) => !model::wire_targets(expression@, optional_text(expected_target))
                && error@ == FilterExpressionErrorKind::InvalidTarget,
        },
    decreases expression,
{
    match expression {
        ExprData::Predicate(predicate) => {
            let other_target = match expected_target {
                Some(target) => !str_eq(predicate.target(), target),
                None => false,
            };
            if !valid_wire_name(predicate.target()) || other_target {
                return Err(FilterExpressionError::new(FilterExpressionErrorKind::InvalidTarget));
            }
            match predicate.relation_internal() {
                Some(relation) => validate_wire_targets(&relation.expression, None),
                None => Ok(()),
            }
        },
        ExprData::And(expressions) | ExprData::Or(expressions) => {
            proof {
                lemma_junction_views(*expressions);
            }
            let mut index: usize = 0;
            while index < expressions.len()
                invariant
                    index <= expressions@.len(),
                    *expression == ExprData::And(*expressions) || *expression == ExprData::Or(
                        *expressions,
                    ),
                    expression@ == model::ExprV::And(views(expressions@)) || expression@
                        == model::ExprV::Or(views(expressions@)),
                    forall|i: int|
                        0 <= i < index ==> model::wire_targets(
                            #[trigger] views(expressions@)[i],
                            optional_text(expected_target),
                        ),
                decreases expressions@.len() - index,
            {
                match validate_wire_targets(&expressions[index], expected_target) {
                    Ok(()) => {},
                    Err(error) => {
                        assert(!model::wire_targets(
                            views(expressions@)[index as int],
                            optional_text(expected_target),
                        ));
                        assert(!model::all_wire_targets(
                            views(expressions@),
                            optional_text(expected_target),
                        ));
                        return Err(error);
                    },
                }
                index += 1;
            }
            assert(model::all_wire_targets(views(expressions@), optional_text(expected_target)));
            Ok(())
        },
        ExprData::Not(expression) => validate_wire_targets(expression, expected_target),
        ExprData::Invalid(_) => Ok(()),
    }
}

/// The view of an optional text.
pub open spec fn optional_text(text: Option<&str>) -> Option<Seq<char>> {
    match text {
        Some(text) => Some(text@),
        None => None,
    }
}

/// Check that every field of an expression is a wire name.
pub fn validate_wire_fields(expression: &ExprData) -> (result: Result<(), FilterExpressionError>)
    ensures
        match result {
            Ok(()) => model::wire_fields(expression@),
            Err(error) => !model::wire_fields(expression@) && error@
                == FilterExpressionErrorKind::UnknownField,
        },
    decreases expression,
{
    match expression {
        ExprData::Predicate(predicate) => {
            if !valid_wire_name(predicate.field()) {
                return Err(FilterExpressionError::new(FilterExpressionErrorKind::UnknownField));
            }
            match predicate.relation_internal() {
                Some(relation) => validate_wire_fields(&relation.expression),
                None => Ok(()),
            }
        },
        ExprData::And(expressions) | ExprData::Or(expressions) => {
            proof {
                lemma_junction_views(*expressions);
            }
            let mut index: usize = 0;
            while index < expressions.len()
                invariant
                    index <= expressions@.len(),
                    *expression == ExprData::And(*expressions) || *expression == ExprData::Or(
                        *expressions,
                    ),
                    expression@ == model::ExprV::And(views(expressions@)) || expression@
                        == model::ExprV::Or(views(expressions@)),
                    forall|i: int|
                        0 <= i < index ==> model::wire_fields(#[trigger] views(expressions@)[i]),
                decreases expressions@.len() - index,
            {
                match validate_wire_fields(&expressions[index]) {
                    Ok(()) => {},
                    Err(error) => {
                        assert(!model::wire_fields(views(expressions@)[index as int]));
                        assert(!model::all_wire_fields(views(expressions@)));
                        return Err(error);
                    },
                }
                index += 1;
            }
            assert(model::all_wire_fields(views(expressions@)));
            Ok(())
        },
        ExprData::Not(expression) => validate_wire_fields(expression),
        ExprData::Invalid(_) => Ok(()),
    }
}

/// Report whether the family of every literal is known.
pub fn expression_is_resolved(expression: &ExprData) -> (resolved: bool)
    ensures
        resolved == model::resolved(expression@),
    decreases expression,
{
    match expression {
        ExprData::Predicate(predicate) => {
            if !predicate.is_resolved_internal() {
                return false;
            }
            match predicate.relation_internal() {
                Some(relation) => expression_is_resolved(&relation.expression),
                None => true,
            }
        },
        ExprData::And(expressions) | ExprData::Or(expressions) => {
            proof {
                lemma_junction_views(*expressions);
            }
            let mut index: usize = 0;
            while index < expressions.len()
                invariant
                    index <= expressions@.len(),
                    *expression == ExprData::And(*expressions) || *expression == ExprData::Or(
                        *expressions,
                    ),
                    expression@ == model::ExprV::And(views(expressions@)) || expression@
                        == model::ExprV::Or(views(expressions@)),
                    forall|i: int|
                        0 <= i < index ==> model::resolved(#[trigger] views(expressions@)[i]),
                decreases expressions@.len() - index,
            {
                if !expression_is_resolved(&expressions[index]) {
                    assert(!model::resolved(views(expressions@)[index as int]));
                    assert(!model::all_resolved(views(expressions@)));
                    return false;
                }
                index += 1;
            }
            assert(model::all_resolved(views(expressions@)));
            true
        },
        ExprData::Not(expression) => expression_is_resolved(expression),
        ExprData::Invalid(_) => false,
    }
}

} // verus!
