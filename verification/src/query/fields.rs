//! Typed field handles that build filter expressions.

use std::marker::PhantomData;

use vstd::prelude::*;
use vstd::string::*;

use crate::query::error::FilterExpressionError;
use crate::query::error::FilterExpressionErrorKind;
use crate::query::expression::FilterExpr;
use crate::query::filterable::FilterEnum;
use crate::query::grammar::RelationQuantifier;
use crate::query::grammar::SetOperator;
use crate::query::grammar::TextOperator;
use crate::query::matching;
use crate::query::matching::CompiledRegex;
use crate::query::matching::FieldId;
use crate::query::matching::PredicateData;
use crate::query::matching::RelationPredicate;
use crate::query::matching::SetPredicate;
use crate::query::matching::TextPredicate;
use crate::query::model;
use crate::query::outside;
use crate::query::private;
use crate::query::private::Predicate;
use crate::text::str_eq;

verus! {

/// The expression of one predicate on a handle's field.
pub open spec fn on_field(id: FieldId, data: model::DataV) -> model::ExprV {
    model::ExprV::Predicate(
        model::PredicateV { target: Some(id.target@), field: id.field@, data },
    )
}

/// A text test without a pattern.
pub open spec fn plain_text(operator: TextOperator, values: Seq<Seq<char>>) -> model::DataV {
    model::DataV::Text(model::TextV { operator, values, regex: None })
}

/// The rendering that names a handle's kind, target and field.
pub open spec fn handle_rendering(kind: Seq<char>, id: FieldId) -> Seq<char> {
    kind + " { target: "@ + outside::debug_quoted(id.target@) + ", field: "@
        + outside::debug_quoted(id.field@) + " }"@
}

/// Render a handle's kind, target and field.
fn render_handle(kind: &str, id: FieldId) -> (rendering: String)
    ensures
        rendering@ == handle_rendering(kind@, id),
{
    let mut rendering = kind.to_owned();
    rendering.append(" { target: ");
    rendering.append(outside::quote(id.target).as_str());
    rendering.append(", field: ");
    rendering.append(outside::quote(id.field).as_str());
    rendering.append(" }");
    rendering
}

impl FieldId {
    /// Whether the handle names a field of a target.
    pub open spec fn names(self, target: Seq<char>, field: Seq<char>) -> bool {
        self.target@ == target && self.field@ == field
    }
}

/// Report whether two handles name one field of one target.
fn same_id(left: FieldId, right: FieldId) -> (same: bool)
    ensures
        same == (left.target@ == right.target@ && left.field@ == right.field@),
{
    str_eq(left.target, right.target) && str_eq(left.field, right.field)
}

/// A handle for a text field of a target.
pub struct TextField<T> {
    pub(crate) id: FieldId,
    pub(crate) marker: PhantomData<T>,
}

impl<T> Clone for TextField<T> {
    fn clone(&self) -> (copy: Self)
        ensures
            copy == *self,
    {
        *self
    }
}

impl<T> Copy for TextField<T> {

}

impl<T> PartialEq for TextField<T> {
    fn eq(&self, other: &Self) -> (same: bool) {
        same_id(self.id, other.id)
    }
}

impl<T> vstd::std_specs::cmp::PartialEqSpecImpl for TextField<T> {
    open spec fn obeys_eq_spec() -> bool {
        true
    }

    open spec fn eq_spec(&self, other: &Self) -> bool {
        self.id().target@ == other.id().target@ && self.id().field@ == other.id().field@
    }
}

impl<T> Eq for TextField<T> {

}

impl<T> TextField<T> {
    /// The field that the handle names.
    pub closed spec fn id(self) -> FieldId {
        self.id
    }

    /// Build a handle for a field of a target.
    pub fn new(target: &'static str, field: &'static str) -> (handle: Self)
        ensures
            handle.id() == (FieldId { target, field }),
    {
        TextField { id: FieldId { target, field }, marker: PhantomData }
    }

    /// Render the handle's kind, target and field.
    pub fn debug_text(&self) -> (rendering: String)
        ensures
            rendering@ == handle_rendering("TextField"@, self.id()),
    {
        render_handle("TextField", self.id)
    }
}

/// The views of a list of texts.
pub open spec fn operands(values: Seq<&str>) -> Seq<Seq<char>> {
    private::names(values)
}

/// Own a list of texts.
fn own_texts(values: &[&str]) -> (owned: Vec<String>)
    ensures
        matching::texts(owned@) == operands(values@),
{
    let mut owned: Vec<String> = Vec::new();
    let mut index: usize = 0;
    while index < values.len()
        invariant
            index <= values@.len(),
            owned@.len() == index,
            forall|i: int| 0 <= i < index ==> (#[trigger] owned@[i])@ == values@[i]@,
        decreases values@.len() - index,
    {
        owned.push(values[index].to_owned());
        index += 1;
    }
    assert(matching::texts(owned@) =~= operands(values@));
    owned
}

impl<T> TextField<T> {
    fn expression(
        self,
        operator: TextOperator,
        values: Vec<String>,
        compiled_regex: Option<CompiledRegex>,
    ) -> (expression: FilterExpr<T>)
        requires
            operator.takes_regex() ==> values@.len() == 1 && matching::regex_view(compiled_regex)
                == Some((values@[0]@, operator is RegexIgnoreCase)) && outside::pattern_compiles(
                values@[0]@,
                operator is RegexIgnoreCase,
            ),
        ensures
            expression@ == on_field(
                self.id(),
                model::DataV::Text(
                    model::TextV {
                        operator,
                        values: matching::texts(values@),
                        regex: matching::regex_view(compiled_regex),
                    },
                ),
            ),
    {
        FilterExpr::predicate(
            Predicate::new(
                self.id,
                PredicateData::Text(TextPredicate { operator, values, compiled_regex }),
            ),
        )
    }

    fn one(self, operator: TextOperator, value: &str) -> (expression: FilterExpr<T>)
        requires
            !operator.takes_regex(),
        ensures
            expression@ == on_field(self.id(), plain_text(operator, seq![value@])),
    {
        let mut values: Vec<String> = Vec::new();
        values.push(value.to_owned());
        assert(matching::texts(values@) =~= seq![value@]);
        self.expression(operator, values, None)
    }

    /// Match texts that equal a value.
    pub fn eq(self, value: &str) -> (expression: FilterExpr<T>)
        ensures
            expression@ == on_field(self.id(), plain_text(TextOperator::Eq, seq![value@])),
    {
        self.one(TextOperator::Eq, value)
    }

    /// Match texts that equal a value up to case.
    pub fn eq_ignore_case(self, value: &str) -> (expression: FilterExpr<T>)
        ensures
            expression@ == on_field(self.id(), plain_text(TextOperator::EqIgnoreCase, seq![value@])),
    {
        self.one(TextOperator::EqIgnoreCase, value)
    }

    /// Match texts that contain a value.
    pub fn contains(self, value: &str) -> (expression: FilterExpr<T>)
        ensures
            expression@ == on_field(self.id(), plain_text(TextOperator::Contains, seq![value@])),
    {
        self.one(TextOperator::Contains, value)
    }

    /// Match texts that contain a value up to case.
    pub fn contains_ignore_case(self, value: &str) -> (expression: FilterExpr<T>)
        ensures
            expression@ == on_field(self.id(), plain_text(TextOperator::ContainsIgnoreCase, seq![value@])),
    {
        self.one(TextOperator::ContainsIgnoreCase, value)
    }

    /// Match texts that start with a value.
    pub fn starts_with(self, value: &str) -> (expression: FilterExpr<T>)
        ensures
            expression@ == on_field(self.id(), plain_text(TextOperator::StartsWith, seq![value@])),
    {
        self.one(TextOperator::StartsWith, value)
    }

    /// Match texts that start with a value up to case.
    pub fn starts_with_ignore_case(self, value: &str) -> (expression: FilterExpr<T>)
        ensures
            expression@ == on_field(self.id(), plain_text(TextOperator::StartsWithIgnoreCase, seq![value@])),
    {
        self.one(TextOperator::StartsWithIgnoreCase, value)
    }

    /// Match texts that end with a value.
    pub fn ends_with(self, value: &str) -> (expression: FilterExpr<T>)
        ensures
            expression@ == on_field(self.id(), plain_text(TextOperator::EndsWith, seq![value@])),
    {
        self.one(TextOperator::EndsWith, value)
    }

    /// Match texts that end with a value up to case.
    pub fn ends_with_ignore_case(self, value: &str) -> (expression: FilterExpr<T>)
        ensures
            expression@ == on_field(self.id(), plain_text(TextOperator::EndsWithIgnoreCase, seq![value@])),
    {
        self.one(TextOperator::EndsWithIgnoreCase, value)
    }

    /// Match texts that are one of the values.
    pub fn is_in(self, values: &[&str]) -> (expression: FilterExpr<T>)
        ensures
            expression@ == on_field(
                self.id(),
                plain_text(TextOperator::In, operands(values@)),
            ),
    {
        self.expression(TextOperator::In, own_texts(values), None)
    }

    /// Match texts that are none of the values.
    pub fn not_in(self, values: &[&str]) -> (expression: FilterExpr<T>)
        ensures
            expression@ == on_field(
                self.id(),
                plain_text(TextOperator::NotIn, operands(values@)),
            ),
    {
        self.expression(TextOperator::NotIn, own_texts(values), None)
    }

    fn regex_inner(self, pattern: &str, ignore_case: bool) -> (expression: Result<
        FilterExpr<T>,
        FilterExpressionError,
    >)
        ensures
            match expression {
                Ok(expression) => outside::pattern_compiles(pattern@, ignore_case) && expression@
                    == on_field(
                    self.id(),
                    model::DataV::Text(
                        model::TextV {
                            operator: if ignore_case {
                                TextOperator::RegexIgnoreCase
                            } else {
                                TextOperator::Regex
                            },
                            values: seq![pattern@],
                            regex: Some((pattern@, ignore_case)),
                        },
                    ),
                ),
                Err(error) => !outside::pattern_compiles(pattern@, ignore_case) && error@
                    == FilterExpressionErrorKind::InvalidRegex,
            },
    {
        let compiled_regex = match CompiledRegex::new(pattern, ignore_case) {
            Ok(regex) => regex,
            Err(error) => return Err(error),
        };
        let operator = if ignore_case {
            TextOperator::RegexIgnoreCase
        } else {
            TextOperator::Regex
        };
        let mut values: Vec<String> = Vec::new();
        values.push(pattern.to_owned());
        assert(matching::texts(values@) =~= seq![pattern@]);
        Ok(self.expression(operator, values, Some(compiled_regex)))
    }

    /// Match texts in which a regular expression matches.
    ///
    /// # Errors
    ///
    /// [`FilterExpressionErrorKind::InvalidRegex`] for a pattern that does not
    /// compile.
    pub fn regex(self, pattern: &str) -> (expression: Result<
        FilterExpr<T>,
        FilterExpressionError,
    >)
        ensures
            match expression {
                Ok(expression) => outside::pattern_compiles(pattern@, false) && expression@
                    == on_field(
                    self.id(),
                    model::DataV::Text(
                        model::TextV {
                            operator: TextOperator::Regex,
                            values: seq![pattern@],
                            regex: Some((pattern@, false)),
                        },
                    ),
                ),
                Err(error) => !outside::pattern_compiles(pattern@, false) && error@
                    == FilterExpressionErrorKind::InvalidRegex,
            },
    {
        self.regex_inner(pattern, false)
    }

    /// Match texts in which a regular expression that ignores case matches.
    ///
    /// # Errors
    ///
    /// [`FilterExpressionErrorKind::InvalidRegex`] for a pattern that does not
    /// compile.
    pub fn regex_ignore_case(self, pattern: &str) -> (expression: Result<
        FilterExpr<T>,
        FilterExpressionError,
    >)
        ensures
            match expression {
                Ok(expression) => outside::pattern_compiles(pattern@, true) && expression@
                    == on_field(
                    self.id(),
                    model::DataV::Text(
                        model::TextV {
                            operator: TextOperator::RegexIgnoreCase,
                            values: seq![pattern@],
                            regex: Some((pattern@, true)),
                        },
                    ),
                ),
                Err(error) => !outside::pattern_compiles(pattern@, true) && error@
                    == FilterExpressionErrorKind::InvalidRegex,
            },
    {
        self.regex_inner(pattern, true)
    }
}

/// A handle for a boolean field of a target.
pub struct BoolField<T> {
    pub(crate) id: FieldId,
    pub(crate) marker: PhantomData<T>,
}

impl<T> Clone for BoolField<T> {
    fn clone(&self) -> (copy: Self)
        ensures
            copy == *self,
    {
        *self
    }
}

impl<T> Copy for BoolField<T> {

}

impl<T> PartialEq for BoolField<T> {
    fn eq(&self, other: &Self) -> (same: bool) {
        same_id(self.id, other.id)
    }
}

impl<T> vstd::std_specs::cmp::PartialEqSpecImpl for BoolField<T> {
    open spec fn obeys_eq_spec() -> bool {
        true
    }

    open spec fn eq_spec(&self, other: &Self) -> bool {
        self.id().target@ == other.id().target@ && self.id().field@ == other.id().field@
    }
}

impl<T> Eq for BoolField<T> {

}

impl<T> BoolField<T> {
    /// The field that the handle names.
    pub closed spec fn id(self) -> FieldId {
        self.id
    }

    /// Build a handle for a field of a target.
    pub fn new(target: &'static str, field: &'static str) -> (handle: Self)
        ensures
            handle.id() == (FieldId { target, field }),
    {
        BoolField { id: FieldId { target, field }, marker: PhantomData }
    }

    /// Render the handle's kind, target and field.
    pub fn debug_text(&self) -> (rendering: String)
        ensures
            rendering@ == handle_rendering("BoolField"@, self.id()),
    {
        render_handle("BoolField", self.id)
    }
}

impl<T> BoolField<T> {
    fn expression(self, operator: SetOperator, values: Vec<bool>) -> (expression: FilterExpr<T>)
        ensures
            expression@ == on_field(
                self.id(),
                model::DataV::Bool(model::SetV { operator, values: values@ }),
            ),
    {
        FilterExpr::predicate(
            Predicate::new(self.id, PredicateData::Bool(SetPredicate { operator, values })),
        )
    }

    /// Match a boolean that equals a value.
    pub fn eq(self, value: bool) -> (expression: FilterExpr<T>)
        ensures
            expression@ == on_field(
                self.id(),
                model::DataV::Bool(
                    model::SetV { operator: SetOperator::Eq, values: seq![value] },
                ),
            ),
    {
        let mut values: Vec<bool> = Vec::new();
        values.push(value);
        assert(values@ =~= seq![value]);
        self.expression(SetOperator::Eq, values)
    }

    /// Match a boolean that is one of the values.
    pub fn is_in(self, values: &[bool]) -> (expression: FilterExpr<T>)
        ensures
            expression@ == on_field(
                self.id(),
                model::DataV::Bool(model::SetV { operator: SetOperator::In, values: values@ }),
            ),
    {
        self.expression(SetOperator::In, copy_values(values))
    }

    /// Match a boolean that is none of the values.
    pub fn not_in(self, values: &[bool]) -> (expression: FilterExpr<T>)
        ensures
            expression@ == on_field(
                self.id(),
                model::DataV::Bool(model::SetV { operator: SetOperator::NotIn, values: values@ }),
            ),
    {
        self.expression(SetOperator::NotIn, copy_values(values))
    }
}

/// Own a list of values.
fn copy_values<V: Copy>(values: &[V]) -> (owned: Vec<V>)
    ensures
        owned@ == values@,
{
    let mut owned: Vec<V> = Vec::new();
    let mut index: usize = 0;
    while index < values.len()
        invariant
            index <= values@.len(),
            owned@ == values@.take(index as int),
        decreases values@.len() - index,
    {
        owned.push(values[index]);
        index += 1;
    }
    assert(owned@ =~= values@);
    owned
}

/// An integer widened without loss.
pub enum WideInteger {
    Signed(i128),
    Unsigned(u128),
}

/// A fixed-width integer that a field can hold.
pub trait FilterInteger: Copy {
    /// The integer in contracts.
    spec fn number(self) -> int;

    /// Whether the type has negative values.
    spec fn signed() -> bool;

    /// Whether the type has negative values.
    fn is_signed() -> (signed: bool)
        ensures
            signed == Self::signed(),
    ;

    /// Widen the integer without loss.
    fn widen(self) -> (wide: WideInteger)
        ensures
            match wide {
                WideInteger::Signed(value) => Self::signed() && value == self.number(),
                WideInteger::Unsigned(value) => !Self::signed() && value == self.number(),
            },
    ;
}

impl FilterInteger for i8 {
    open spec fn number(self) -> int {
        self as int
    }

    open spec fn signed() -> bool {
        true
    }

    fn is_signed() -> (signed: bool) {
        true
    }

    fn widen(self) -> (wide: WideInteger) {
        WideInteger::Signed(self as i128)
    }
}

impl FilterInteger for i16 {
    open spec fn number(self) -> int {
        self as int
    }

    open spec fn signed() -> bool {
        true
    }

    fn is_signed() -> (signed: bool) {
        true
    }

    fn widen(self) -> (wide: WideInteger) {
        WideInteger::Signed(self as i128)
    }
}

impl FilterInteger for i32 {
    open spec fn number(self) -> int {
        self as int
    }

    open spec fn signed() -> bool {
        true
    }

    fn is_signed() -> (signed: bool) {
        true
    }

    fn widen(self) -> (wide: WideInteger) {
        WideInteger::Signed(self as i128)
    }
}

impl FilterInteger for i64 {
    open spec fn number(self) -> int {
        self as int
    }

    open spec fn signed() -> bool {
        true
    }

    fn is_signed() -> (signed: bool) {
        true
    }

    fn widen(self) -> (wide: WideInteger) {
        WideInteger::Signed(self as i128)
    }
}

impl FilterInteger for i128 {
    open spec fn number(self) -> int {
        self as int
    }

    open spec fn signed() -> bool {
        true
    }

    fn is_signed() -> (signed: bool) {
        true
    }

    fn widen(self) -> (wide: WideInteger) {
        WideInteger::Signed(self as i128)
    }
}

impl FilterInteger for u8 {
    open spec fn number(self) -> int {
        self as int
    }

    open spec fn signed() -> bool {
        false
    }

    fn is_signed() -> (signed: bool) {
        false
    }

    fn widen(self) -> (wide: WideInteger) {
        WideInteger::Unsigned(self as u128)
    }
}

impl FilterInteger for u16 {
    open spec fn number(self) -> int {
        self as int
    }

    open spec fn signed() -> bool {
        false
    }

    fn is_signed() -> (signed: bool) {
        false
    }

    fn widen(self) -> (wide: WideInteger) {
        WideInteger::Unsigned(self as u128)
    }
}

impl FilterInteger for u32 {
    open spec fn number(self) -> int {
        self as int
    }

    open spec fn signed() -> bool {
        false
    }

    fn is_signed() -> (signed: bool) {
        false
    }

    fn widen(self) -> (wide: WideInteger) {
        WideInteger::Unsigned(self as u128)
    }
}

impl FilterInteger for u64 {
    open spec fn number(self) -> int {
        self as int
    }

    open spec fn signed() -> bool {
        false
    }

    fn is_signed() -> (signed: bool) {
        false
    }

    fn widen(self) -> (wide: WideInteger) {
        WideInteger::Unsigned(self as u128)
    }
}

impl FilterInteger for u128 {
    open spec fn number(self) -> int {
        self as int
    }

    open spec fn signed() -> bool {
        false
    }

    fn is_signed() -> (signed: bool) {
        false
    }

    fn widen(self) -> (wide: WideInteger) {
        WideInteger::Unsigned(self as u128)
    }
}

/// A handle for an integer field of a target.
pub struct IntegerField<T, N> {
    pub(crate) id: FieldId,
    pub(crate) marker: PhantomData<(T, N)>,
}

impl<T, N> Clone for IntegerField<T, N> {
    fn clone(&self) -> (copy: Self)
        ensures
            copy == *self,
    {
        *self
    }
}

impl<T, N> Copy for IntegerField<T, N> {

}

impl<T, N> PartialEq for IntegerField<T, N> {
    fn eq(&self, other: &Self) -> (same: bool) {
        same_id(self.id, other.id)
    }
}

impl<T, N> vstd::std_specs::cmp::PartialEqSpecImpl for IntegerField<T, N> {
    open spec fn obeys_eq_spec() -> bool {
        true
    }

    open spec fn eq_spec(&self, other: &Self) -> bool {
        self.id().target@ == other.id().target@ && self.id().field@ == other.id().field@
    }
}

impl<T, N> Eq for IntegerField<T, N> {

}

impl<T, N> IntegerField<T, N> {
    /// The field that the handle names.
    pub closed spec fn id(self) -> FieldId {
        self.id
    }

    /// Build a handle for a field of a target.
    pub fn new(target: &'static str, field: &'static str) -> (handle: Self)
        ensures
            handle.id() == (FieldId { target, field }),
    {
        IntegerField { id: FieldId { target, field }, marker: PhantomData }
    }

    /// Render the handle's kind, target and field.
    pub fn debug_text(&self) -> (rendering: String)
        ensures
            rendering@ == handle_rendering("IntegerField"@, self.id()),
    {
        render_handle("IntegerField", self.id)
    }
}

/// A test on integers.
pub open spec fn integer_data<N: FilterInteger>(
    operator: SetOperator,
    values: Seq<N>,
) -> model::DataV {
    if N::signed() {
        model::DataV::Signed(
            model::SetV { operator, values: values.map_values(|value: N| value.number() as i128) },
        )
    } else {
        model::DataV::Unsigned(
            model::SetV { operator, values: values.map_values(|value: N| value.number() as u128) },
        )
    }
}

/// Widen a list of integers into a test.
fn widen_all<N: FilterInteger>(operator: SetOperator, values: &[N]) -> (data: PredicateData)
    ensures
        data@ == integer_data(operator, values@),
{
    let mut signed: Vec<i128> = Vec::new();
    let mut unsigned: Vec<u128> = Vec::new();
    let mut index: usize = 0;
    while index < values.len()
        invariant
            index <= values@.len(),
            N::signed() ==> signed@.len() == index && forall|i: int|
                0 <= i < index ==> #[trigger] signed@[i] == values@[i].number() as i128,
            !N::signed() ==> unsigned@.len() == index && forall|i: int|
                0 <= i < index ==> #[trigger] unsigned@[i] == values@[i].number() as u128,
        decreases values@.len() - index,
    {
        match values[index].widen() {
            WideInteger::Signed(value) => signed.push(value),
            WideInteger::Unsigned(value) => unsigned.push(value),
        }
        index += 1;
    }
    if N::is_signed() {
        assert(signed@ =~= values@.map_values(|value: N| value.number() as i128));
        PredicateData::Signed(SetPredicate { operator, values: signed })
    } else {
        assert(unsigned@ =~= values@.map_values(|value: N| value.number() as u128));
        PredicateData::Unsigned(SetPredicate { operator, values: unsigned })
    }
}

impl<T, N: FilterInteger> IntegerField<T, N> {
    fn expression(self, operator: SetOperator, values: &[N]) -> (expression: FilterExpr<T>)
        ensures
            expression@ == on_field(self.id(), integer_data(operator, values@)),
    {
        FilterExpr::predicate(Predicate::new(self.id, widen_all(operator, values)))
    }

    fn one(self, operator: SetOperator, value: N) -> (expression: FilterExpr<T>)
        ensures
            expression@ == on_field(self.id(), integer_data(operator, seq![value])),
    {
        let mut values: Vec<N> = Vec::new();
        values.push(value);
        assert(values@ =~= seq![value]);
        self.expression(operator, values.as_slice())
    }

    /// Match an integer that equals a value.
    pub fn eq(self, value: N) -> (expression: FilterExpr<T>)
        ensures
            expression@ == on_field(self.id(), integer_data(SetOperator::Eq, seq![value])),
    {
        self.one(SetOperator::Eq, value)
    }

    /// Match an integer that is below a bound.
    pub fn lt(self, value: N) -> (expression: FilterExpr<T>)
        ensures
            expression@ == on_field(self.id(), integer_data(SetOperator::Lt, seq![value])),
    {
        self.one(SetOperator::Lt, value)
    }

    /// Match an integer that is at most a bound.
    pub fn lte(self, value: N) -> (expression: FilterExpr<T>)
        ensures
            expression@ == on_field(self.id(), integer_data(SetOperator::Lte, seq![value])),
    {
        self.one(SetOperator::Lte, value)
    }

    /// Match an integer that is above a bound.
    pub fn gt(self, value: N) -> (expression: FilterExpr<T>)
        ensures
            expression@ == on_field(self.id(), integer_data(SetOperator::Gt, seq![value])),
    {
        self.one(SetOperator::Gt, value)
    }

    /// Match an integer that is at least a bound.
    pub fn gte(self, value: N) -> (expression: FilterExpr<T>)
        ensures
            expression@ == on_field(self.id(), integer_data(SetOperator::Gte, seq![value])),
    {
        self.one(SetOperator::Gte, value)
    }

    /// Match an integer that is one of the values.
    pub fn is_in(self, values: &[N]) -> (expression: FilterExpr<T>)
        ensures
            expression@ == on_field(self.id(), integer_data(SetOperator::In, values@)),
    {
        self.expression(SetOperator::In, values)
    }

    /// Match an integer that is none of the values.
    pub fn not_in(self, values: &[N]) -> (expression: FilterExpr<T>)
        ensures
            expression@ == on_field(self.id(), integer_data(SetOperator::NotIn, values@)),
    {
        self.expression(SetOperator::NotIn, values)
    }
}

/// A handle for a field of a target that holds a closed vocabulary.
pub struct EnumField<T, E> {
    pub(crate) id: FieldId,
    pub(crate) marker: PhantomData<(T, E)>,
}

impl<T, E> Clone for EnumField<T, E> {
    fn clone(&self) -> (copy: Self)
        ensures
            copy == *self,
    {
        *self
    }
}

impl<T, E> Copy for EnumField<T, E> {

}

impl<T, E> PartialEq for EnumField<T, E> {
    fn eq(&self, other: &Self) -> (same: bool) {
        same_id(self.id, other.id)
    }
}

impl<T, E> vstd::std_specs::cmp::PartialEqSpecImpl for EnumField<T, E> {
    open spec fn obeys_eq_spec() -> bool {
        true
    }

    open spec fn eq_spec(&self, other: &Self) -> bool {
        self.id().target@ == other.id().target@ && self.id().field@ == other.id().field@
    }
}

impl<T, E> Eq for EnumField<T, E> {

}

impl<T, E> EnumField<T, E> {
    /// The field that the handle names.
    pub closed spec fn id(self) -> FieldId {
        self.id
    }

    /// Build a handle for a field of a target.
    pub fn new(target: &'static str, field: &'static str) -> (handle: Self)
        ensures
            handle.id() == (FieldId { target, field }),
    {
        EnumField { id: FieldId { target, field }, marker: PhantomData }
    }

    /// Render the handle's kind, target and field.
    pub fn debug_text(&self) -> (rendering: String)
        ensures
            rendering@ == handle_rendering("EnumField"@, self.id()),
    {
        render_handle("EnumField", self.id)
    }
}

/// A test on variants.
pub open spec fn enum_data<E: FilterEnum>(operator: SetOperator, values: Seq<E>) -> model::DataV {
    model::DataV::Enum(
        model::SetV { operator, values: values.map_values(|value: E| value.name()) },
    )
}

impl<T, E: FilterEnum> EnumField<T, E> {
    fn expression(self, operator: SetOperator, values: &[E]) -> (expression: FilterExpr<T>)
        ensures
            expression@ == on_field(self.id(), enum_data(operator, values@)),
    {
        let mut names: Vec<String> = Vec::new();
        let mut index: usize = 0;
        while index < values.len()
            invariant
                index <= values@.len(),
                names@.len() == index,
                forall|i: int| 0 <= i < index ==> (#[trigger] names@[i])@ == values@[i].name(),
            decreases values@.len() - index,
        {
            names.push(values[index].filter_name().to_owned());
            index += 1;
        }
        assert(matching::texts(names@) =~= values@.map_values(|value: E| value.name()));
        FilterExpr::predicate(
            Predicate::new(self.id, PredicateData::Enum(SetPredicate { operator, values: names })),
        )
    }

    /// Match a variant that equals a value.
    pub fn eq(self, value: E) -> (expression: FilterExpr<T>)
        ensures
            expression@ == on_field(self.id(), enum_data(SetOperator::Eq, seq![value])),
    {
        let mut values: Vec<E> = Vec::new();
        values.push(value);
        assert(values@ =~= seq![value]);
        self.expression(SetOperator::Eq, values.as_slice())
    }

    /// Match a variant that is one of the values.
    pub fn is_in(self, values: &[E]) -> (expression: FilterExpr<T>)
        ensures
            expression@ == on_field(self.id(), enum_data(SetOperator::In, values@)),
    {
        self.expression(SetOperator::In, values)
    }

    /// Match a variant that is none of the values.
    pub fn not_in(self, values: &[E]) -> (expression: FilterExpr<T>)
        ensures
            expression@ == on_field(self.id(), enum_data(SetOperator::NotIn, values@)),
    {
        self.expression(SetOperator::NotIn, values)
    }
}

/// A handle for a to-many relation of a target.
pub struct ManyRelation<From, To> {
    pub(crate) id: FieldId,
    pub(crate) marker: PhantomData<(From, To)>,
}

impl<From, To> Clone for ManyRelation<From, To> {
    fn clone(&self) -> (copy: Self)
        ensures
            copy == *self,
    {
        *self
    }
}

impl<From, To> Copy for ManyRelation<From, To> {

}

impl<From, To> PartialEq for ManyRelation<From, To> {
    fn eq(&self, other: &Self) -> (same: bool) {
        same_id(self.id, other.id)
    }
}

impl<From, To> vstd::std_specs::cmp::PartialEqSpecImpl for ManyRelation<From, To> {
    open spec fn obeys_eq_spec() -> bool {
        true
    }

    open spec fn eq_spec(&self, other: &Self) -> bool {
        self.id().target@ == other.id().target@ && self.id().field@ == other.id().field@
    }
}

impl<From, To> Eq for ManyRelation<From, To> {

}

impl<From, To> ManyRelation<From, To> {
    /// The field that the handle names.
    pub closed spec fn id(self) -> FieldId {
        self.id
    }

    /// Build a handle for a field of a target.
    pub fn new(target: &'static str, field: &'static str) -> (handle: Self)
        ensures
            handle.id() == (FieldId { target, field }),
    {
        ManyRelation { id: FieldId { target, field }, marker: PhantomData }
    }

    /// Render the handle's kind, target and field.
    pub fn debug_text(&self) -> (rendering: String)
        ensures
            rendering@ == handle_rendering("ManyRelation"@, self.id()),
    {
        render_handle("ManyRelation", self.id)
    }
}

impl<From, To> ManyRelation<From, To> {
    fn expression(self, quantifier: RelationQuantifier, expression: FilterExpr<To>) -> (relation:
        FilterExpr<From>)
        ensures
            relation@ == on_field(
                self.id(),
                model::DataV::Relation(quantifier, Box::new(expression@)),
            ),
    {
        FilterExpr::predicate(
            Predicate::new(
                self.id,
                PredicateData::Relation(
                    RelationPredicate { quantifier, expression: Box::new(expression.into_data()) },
                ),
            ),
        )
    }

    /// Match values of which some related value matches.
    pub fn any(self, expression: FilterExpr<To>) -> (relation: FilterExpr<From>)
        ensures
            relation@ == on_field(
                self.id(),
                model::DataV::Relation(RelationQuantifier::Any, Box::new(expression@)),
            ),
    {
        self.expression(RelationQuantifier::Any, expression)
    }

    /// Match values of which every related value matches.
    pub fn all(self, expression: FilterExpr<To>) -> (relation: FilterExpr<From>)
        ensures
            relation@ == on_field(
                self.id(),
                model::DataV::Relation(RelationQuantifier::All, Box::new(expression@)),
            ),
    {
        self.expression(RelationQuantifier::All, expression)
    }

    /// Match values of which no related value matches.
    pub fn none(self, expression: FilterExpr<To>) -> (relation: FilterExpr<From>)
        ensures
            relation@ == on_field(
                self.id(),
                model::DataV::Relation(RelationQuantifier::NoneOf, Box::new(expression@)),
            ),
    {
        self.expression(RelationQuantifier::NoneOf, expression)
    }
}

/// A handle for a to-one relation of a target.
pub struct OneRelation<From, To> {
    pub(crate) id: FieldId,
    pub(crate) marker: PhantomData<(From, To)>,
}

impl<From, To> Clone for OneRelation<From, To> {
    fn clone(&self) -> (copy: Self)
        ensures
            copy == *self,
    {
        *self
    }
}

impl<From, To> Copy for OneRelation<From, To> {

}

impl<From, To> PartialEq for OneRelation<From, To> {
    fn eq(&self, other: &Self) -> (same: bool) {
        same_id(self.id, other.id)
    }
}

impl<From, To> vstd::std_specs::cmp::PartialEqSpecImpl for OneRelation<From, To> {
    open spec fn obeys_eq_spec() -> bool {
        true
    }

    open spec fn eq_spec(&self, other: &Self) -> bool {
        self.id().target@ == other.id().target@ && self.id().field@ == other.id().field@
    }
}

impl<From, To> Eq for OneRelation<From, To> {

}

impl<From, To> OneRelation<From, To> {
    /// The field that the handle names.
    pub closed spec fn id(self) -> FieldId {
        self.id
    }

    /// Build a handle for a field of a target.
    pub fn new(target: &'static str, field: &'static str) -> (handle: Self)
        ensures
            handle.id() == (FieldId { target, field }),
    {
        OneRelation { id: FieldId { target, field }, marker: PhantomData }
    }

    /// Render the handle's kind, target and field.
    pub fn debug_text(&self) -> (rendering: String)
        ensures
            rendering@ == handle_rendering("OneRelation"@, self.id()),
    {
        render_handle("OneRelation", self.id)
    }
}

impl<From, To> OneRelation<From, To> {
    /// Match values whose related value exists and matches.
    pub fn is(self, expression: FilterExpr<To>) -> (relation: FilterExpr<From>)
        ensures
            relation@ == on_field(
                self.id(),
                model::DataV::Relation(RelationQuantifier::Is, Box::new(expression@)),
            ),
    {
        FilterExpr::predicate(
            Predicate::new(
                self.id,
                PredicateData::Relation(
                    RelationPredicate {
                        quantifier: RelationQuantifier::Is,
                        expression: Box::new(expression.into_data()),
                    },
                ),
            ),
        )
    }
}

/// A handle builds a test of its own field of its own target.
pub proof fn law_handles_test_their_field(
    id: FieldId,
    data: model::DataV,
    operator: TextOperator,
    values: Seq<Seq<char>>,
)
    ensures
        on_field(id, data) is Predicate,
        on_field(id, data)->Predicate_0.target == Some(id.target@),
        on_field(id, data)->Predicate_0.field == id.field@,
        on_field(id, data)->Predicate_0.data == data,
        plain_text(operator, values).scalar() == Some(
            model::ScalarV::Text(model::TextV { operator, values, regex: None }),
        ),
{
}

/// A test of integers compares against the numbers that it was given, in their
/// order and by their sign.
pub proof fn law_integer_tests_keep_their_numbers<N: FilterInteger>(
    operator: SetOperator,
    values: Seq<N>,
    index: int,
)
    requires
        0 <= index < values.len(),
        N::signed() ==> i128::MIN <= values[index].number() <= i128::MAX,
        !N::signed() ==> 0 <= values[index].number() <= u128::MAX,
    ensures
        match integer_data(operator, values).scalar() {
            Some(model::ScalarV::Signed(test)) => N::signed() && test.operator == operator
                && test.values.len() == values.len() && test.values[index]
                == values[index].number(),
            Some(model::ScalarV::Unsigned(test)) => !N::signed() && test.operator == operator
                && test.values.len() == values.len() && test.values[index]
                == values[index].number(),
            _ => false,
        },
{
}

/// Every width of integers is the number that it holds.
pub proof fn law_integers_are_their_numbers(
    signed: (i8, i16, i32, i64, i128),
    unsigned: (u8, u16, u32, u64, u128),
)
    ensures
        signed.0.number() == signed.0 && signed.1.number() == signed.1 && signed.2.number()
            == signed.2 && signed.3.number() == signed.3 && signed.4.number() == signed.4,
        unsigned.0.number() == unsigned.0 && unsigned.1.number() == unsigned.1
            && unsigned.2.number() == unsigned.2 && unsigned.3.number() == unsigned.3
            && unsigned.4.number() == unsigned.4,
        i8::signed() && i16::signed() && i32::signed() && i64::signed() && i128::signed(),
        !u8::signed() && !u16::signed() && !u32::signed() && !u64::signed() && !u128::signed(),
{
}

/// A test of variants compares against their names, in their order.
pub proof fn law_variant_tests_keep_their_names<E: FilterEnum>(
    operator: SetOperator,
    values: Seq<E>,
    index: int,
)
    requires
        0 <= index < values.len(),
    ensures
        match enum_data(operator, values).scalar() {
            Some(model::ScalarV::Enum(test)) => test.operator == operator && test.values.len()
                == values.len() && test.values[index] == values[index].name(),
            _ => false,
        },
{
}

} // verus!
