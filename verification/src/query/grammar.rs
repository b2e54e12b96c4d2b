//! Portable filter wire vocabulary shared by decoding and presentation.

use vstd::prelude::*;

use crate::text::str_eq;

verus! {

/// The wire version that envelopes carry.
pub const VERSION: u8 = 1;

/// The deepest nesting of expression nodes that decoding accepts.
pub const MAX_EXPRESSION_DEPTH: usize = 64;

/// The largest number of expression nodes that decoding accepts.
pub const MAX_EXPRESSION_NODES: usize = 4096;

/// The largest number of literals in one set that decoding accepts.
pub const MAX_SET_VALUES: usize = 4096;

/// The operators that text literals can carry on the wire.
#[derive(Clone, Copy, Debug, PartialEq, Eq, Structural)]
pub enum TextOperator {
    Eq,
    EqIgnoreCase,
    Contains,
    ContainsIgnoreCase,
    StartsWith,
    StartsWithIgnoreCase,
    EndsWith,
    EndsWithIgnoreCase,
    In,
    NotIn,
    Regex,
    RegexIgnoreCase,
    Lt,
    Lte,
    Gt,
    Gte,
}

impl TextOperator {
    /// The wire spelling of an operator.
    pub open spec fn spelling(self) -> Seq<char> {
        match self {
            TextOperator::Eq => "eq"@,
            TextOperator::EqIgnoreCase => "eq_ignore_case"@,
            TextOperator::Contains => "contains"@,
            TextOperator::ContainsIgnoreCase => "contains_ignore_case"@,
            TextOperator::StartsWith => "starts_with"@,
            TextOperator::StartsWithIgnoreCase => "starts_with_ignore_case"@,
            TextOperator::EndsWith => "ends_with"@,
            TextOperator::EndsWithIgnoreCase => "ends_with_ignore_case"@,
            TextOperator::In => "in"@,
            TextOperator::NotIn => "not_in"@,
            TextOperator::Regex => "regex"@,
            TextOperator::RegexIgnoreCase => "regex_ignore_case"@,
            TextOperator::Lt => "lt"@,
            TextOperator::Lte => "lte"@,
            TextOperator::Gt => "gt"@,
            TextOperator::Gte => "gte"@,
        }
    }

    /// Whether an operator compares against a bound.
    pub open spec fn orders(self) -> bool {
        self is Lt || self is Lte || self is Gt || self is Gte
    }

    /// Whether an operator takes a regular expression.
    pub open spec fn takes_regex(self) -> bool {
        self is Regex || self is RegexIgnoreCase
    }

    /// The operator on a set of values that an operator stands for.
    pub open spec fn as_set(self) -> Option<SetOperator> {
        match self {
            TextOperator::Eq => Some(SetOperator::Eq),
            TextOperator::In => Some(SetOperator::In),
            TextOperator::NotIn => Some(SetOperator::NotIn),
            TextOperator::Lt => Some(SetOperator::Lt),
            TextOperator::Lte => Some(SetOperator::Lte),
            TextOperator::Gt => Some(SetOperator::Gt),
            TextOperator::Gte => Some(SetOperator::Gte),
            _ => None,
        }
    }

    /// The text operator that an operator on a set stands for.
    pub open spec fn of_set(operator: SetOperator) -> Option<TextOperator> {
        match operator {
            SetOperator::Eq => Some(TextOperator::Eq),
            SetOperator::In => Some(TextOperator::In),
            SetOperator::NotIn => Some(TextOperator::NotIn),
            _ => None,
        }
    }

    /// The operator with a wire spelling.
    pub open spec fn spelled(label: Seq<char>) -> Option<TextOperator> {
        if exists|operator: TextOperator| operator.spelling() == label {
            Some(choose|operator: TextOperator| operator.spelling() == label)
        } else {
            None
        }
    }

    /// The wire spelling.
    pub fn label(self) -> (label: &'static str)
        ensures
            label@ == self.spelling(),
    {
        match self {
            TextOperator::Eq => "eq",
            TextOperator::EqIgnoreCase => "eq_ignore_case",
            TextOperator::Contains => "contains",
            TextOperator::ContainsIgnoreCase => "contains_ignore_case",
            TextOperator::StartsWith => "starts_with",
            TextOperator::StartsWithIgnoreCase => "starts_with_ignore_case",
            TextOperator::EndsWith => "ends_with",
            TextOperator::EndsWithIgnoreCase => "ends_with_ignore_case",
            TextOperator::In => "in",
            TextOperator::NotIn => "not_in",
            TextOperator::Regex => "regex",
            TextOperator::RegexIgnoreCase => "regex_ignore_case",
            TextOperator::Lt => "lt",
            TextOperator::Lte => "lte",
            TextOperator::Gt => "gt",
            TextOperator::Gte => "gte",
        }
    }

    /// Whether the operator compares against a bound.
    pub fn is_ordering(self) -> (ordering: bool)
        ensures
            ordering == self.orders(),
    {
        matches!(
            self,
            TextOperator::Lt | TextOperator::Lte | TextOperator::Gt | TextOperator::Gte
        )
    }

    /// Whether the operator takes a regular expression.
    pub fn is_regex(self) -> (regex: bool)
        ensures
            regex == self.takes_regex(),
    {
        matches!(self, TextOperator::Regex | TextOperator::RegexIgnoreCase)
    }

    /// Read an operator from its wire spelling.
    pub fn from_label(label: &str) -> (operator: Option<TextOperator>)
        ensures
            operator == TextOperator::spelled(label@),
            operator is Some ==> operator->0.spelling() == label@,
            operator is None ==> forall|candidate: TextOperator|
                #[trigger] candidate.spelling() != label@,
    {
        let operator = if str_eq(label, "eq") {
            TextOperator::Eq
        } else if str_eq(label, "eq_ignore_case") {
            TextOperator::EqIgnoreCase
        } else if str_eq(label, "contains") {
            TextOperator::Contains
        } else if str_eq(label, "contains_ignore_case") {
            TextOperator::ContainsIgnoreCase
        } else if str_eq(label, "starts_with") {
            TextOperator::StartsWith
        } else if str_eq(label, "starts_with_ignore_case") {
            TextOperator::StartsWithIgnoreCase
        } else if str_eq(label, "ends_with") {
            TextOperator::EndsWith
        } else if str_eq(label, "ends_with_ignore_case") {
            TextOperator::EndsWithIgnoreCase
        } else if str_eq(label, "in") {
            TextOperator::In
        } else if str_eq(label, "not_in") {
            TextOperator::NotIn
        } else if str_eq(label, "regex") {
            TextOperator::Regex
        } else if str_eq(label, "regex_ignore_case") {
            TextOperator::RegexIgnoreCase
        } else if str_eq(label, "lt") {
            TextOperator::Lt
        } else if str_eq(label, "lte") {
            TextOperator::Lte
        } else if str_eq(label, "gt") {
            TextOperator::Gt
        } else if str_eq(label, "gte") {
            TextOperator::Gte
        } else {
            return None;
        };
        proof {
            assert(operator.spelling() == label@);
            let spelled = TextOperator::spelled(label@)->0;
            assert(spelled.spelling() == label@);
            law_text_spellings_are_distinct(operator, spelled);
        }
        Some(operator)
    }

    /// The operator on a set of values that the operator stands for.
    pub fn set_operator(self) -> (operator: Option<SetOperator>)
        ensures
            operator == self.as_set(),
    {
        match self {
            TextOperator::Eq => Some(SetOperator::Eq),
            TextOperator::In => Some(SetOperator::In),
            TextOperator::NotIn => Some(SetOperator::NotIn),
            TextOperator::Lt => Some(SetOperator::Lt),
            TextOperator::Lte => Some(SetOperator::Lte),
            TextOperator::Gt => Some(SetOperator::Gt),
            TextOperator::Gte => Some(SetOperator::Gte),
            TextOperator::EqIgnoreCase
            | TextOperator::Contains
            | TextOperator::ContainsIgnoreCase
            | TextOperator::StartsWith
            | TextOperator::StartsWithIgnoreCase
            | TextOperator::EndsWith
            | TextOperator::EndsWithIgnoreCase
            | TextOperator::Regex
            | TextOperator::RegexIgnoreCase => None,
        }
    }

    /// The text operator that an operator on a set stands for.
    pub fn from_set(operator: SetOperator) -> (text: Option<TextOperator>)
        ensures
            text == TextOperator::of_set(operator),
    {
        match operator {
            SetOperator::Eq => Some(TextOperator::Eq),
            SetOperator::In => Some(TextOperator::In),
            SetOperator::NotIn => Some(TextOperator::NotIn),
            SetOperator::Lt | SetOperator::Lte | SetOperator::Gt | SetOperator::Gte => None,
        }
    }
}

/// The operators that compare one value against a set or a bound.
#[derive(Clone, Copy, Debug, PartialEq, Eq, Structural)]
pub enum SetOperator {
    Eq,
    In,
    NotIn,
    Lt,
    Lte,
    Gt,
    Gte,
}

impl SetOperator {
    /// The wire spelling of an operator.
    pub open spec fn spelling(self) -> Seq<char> {
        match self {
            SetOperator::Eq => "eq"@,
            SetOperator::In => "in"@,
            SetOperator::NotIn => "not_in"@,
            SetOperator::Lt => "lt"@,
            SetOperator::Lte => "lte"@,
            SetOperator::Gt => "gt"@,
            SetOperator::Gte => "gte"@,
        }
    }

    /// Whether an operator compares against a bound.
    pub open spec fn orders(self) -> bool {
        self is Lt || self is Lte || self is Gt || self is Gte
    }

    /// Whether an operator takes a set of values.
    pub open spec fn takes_set(self) -> bool {
        self is In || self is NotIn
    }

    /// The wire spelling.
    pub fn label(self) -> (label: &'static str)
        ensures
            label@ == self.spelling(),
    {
        match self {
            SetOperator::Eq => "eq",
            SetOperator::In => "in",
            SetOperator::NotIn => "not_in",
            SetOperator::Lt => "lt",
            SetOperator::Lte => "lte",
            SetOperator::Gt => "gt",
            SetOperator::Gte => "gte",
        }
    }

    /// Whether the operator compares against a bound.
    pub fn is_ordering(self) -> (ordering: bool)
        ensures
            ordering == self.orders(),
    {
        matches!(self, SetOperator::Lt | SetOperator::Lte | SetOperator::Gt | SetOperator::Gte)
    }

    /// Whether the operator takes a set of values rather than one.
    pub fn takes_a_set(self) -> (set: bool)
        ensures
            set == self.takes_set(),
    {
        matches!(self, SetOperator::In | SetOperator::NotIn)
    }
}

/// How a relation's related values have to match.
#[derive(Clone, Copy, Debug, PartialEq, Eq, Structural)]
pub enum RelationQuantifier {
    Any,
    All,
    NoneOf,
    Is,
}

impl RelationQuantifier {
    /// The wire spelling of a quantifier.
    pub open spec fn spelling(self) -> Seq<char> {
        match self {
            RelationQuantifier::Any => "any"@,
            RelationQuantifier::All => "all"@,
            RelationQuantifier::NoneOf => "none"@,
            RelationQuantifier::Is => "is"@,
        }
    }

    /// The quantifier with a wire spelling.
    pub open spec fn spelled(label: Seq<char>) -> Option<RelationQuantifier> {
        if exists|quantifier: RelationQuantifier| quantifier.spelling() == label {
            Some(choose|quantifier: RelationQuantifier| quantifier.spelling() == label)
        } else {
            None
        }
    }

    /// The wire spelling.
    pub fn label(self) -> (label: &'static str)
        ensures
            label@ == self.spelling(),
    {
        match self {
            RelationQuantifier::Any => "any",
            RelationQuantifier::All => "all",
            RelationQuantifier::NoneOf => "none",
            RelationQuantifier::Is => "is",
        }
    }

    /// Read a quantifier from its wire spelling.
    pub fn from_label(label: &str) -> (quantifier: Option<RelationQuantifier>)
        ensures
            quantifier == RelationQuantifier::spelled(label@),
            quantifier is Some ==> quantifier->0.spelling() == label@,
            quantifier is None ==> forall|candidate: RelationQuantifier|
                #[trigger] candidate.spelling() != label@,
    {
        let quantifier = if str_eq(label, "any") {
            RelationQuantifier::Any
        } else if str_eq(label, "all") {
            RelationQuantifier::All
        } else if str_eq(label, "none") {
            RelationQuantifier::NoneOf
        } else if str_eq(label, "is") {
            RelationQuantifier::Is
        } else {
            return None;
        };
        proof {
            assert(quantifier.spelling() == label@);
            let spelled = RelationQuantifier::spelled(label@)->0;
            assert(spelled.spelling() == label@);
            law_quantifier_spellings_are_distinct(quantifier, spelled);
        }
        Some(quantifier)
    }
}

/// No two text operators share a wire spelling.
pub proof fn law_text_spellings_are_distinct(left: TextOperator, right: TextOperator)
    ensures
        left.spelling() == right.spelling() <==> left == right,
{
    reveal_strlit("eq");
    reveal_strlit("eq_ignore_case");
    reveal_strlit("contains");
    reveal_strlit("contains_ignore_case");
    reveal_strlit("starts_with");
    reveal_strlit("starts_with_ignore_case");
    reveal_strlit("ends_with");
    reveal_strlit("ends_with_ignore_case");
    reveal_strlit("in");
    reveal_strlit("not_in");
    reveal_strlit("regex");
    reveal_strlit("regex_ignore_case");
    reveal_strlit("lt");
    reveal_strlit("lte");
    reveal_strlit("gt");
    reveal_strlit("gte");
    if left.spelling() == right.spelling() {
        assert(left.spelling().len() == right.spelling().len());
        assert(left.spelling()[0] == right.spelling()[0]);
    }
}

/// No two quantifiers share a wire spelling.
pub proof fn law_quantifier_spellings_are_distinct(
    left: RelationQuantifier,
    right: RelationQuantifier,
)
    ensures
        left.spelling() == right.spelling() <==> left == right,
{
    reveal_strlit("any");
    reveal_strlit("all");
    reveal_strlit("none");
    reveal_strlit("is");
    if left.spelling() == right.spelling() {
        assert(left.spelling().len() == right.spelling().len());
        assert(left.spelling()[0] == right.spelling()[0]);
        assert(left.spelling()[1] == right.spelling()[1]);
    }
}

/// An operator on a set and the text operator that it stands for are spelled
/// alike.
pub proof fn law_set_spelling_agrees(operator: TextOperator)
    ensures
        operator.as_set() is Some ==> operator.as_set()->0.spelling() == operator.spelling(),
{
}

/// Each operator and each quantifier has its own spelling.
pub proof fn law_spellings(operator: TextOperator, set: SetOperator, quantifier: RelationQuantifier)
    ensures
        operator is Eq ==> operator.spelling() == "eq"@,
        operator is EqIgnoreCase ==> operator.spelling() == "eq_ignore_case"@,
        operator is Contains ==> operator.spelling() == "contains"@,
        operator is ContainsIgnoreCase ==> operator.spelling() == "contains_ignore_case"@,
        operator is StartsWith ==> operator.spelling() == "starts_with"@,
        operator is StartsWithIgnoreCase ==> operator.spelling() == "starts_with_ignore_case"@,
        operator is EndsWith ==> operator.spelling() == "ends_with"@,
        operator is EndsWithIgnoreCase ==> operator.spelling() == "ends_with_ignore_case"@,
        operator is In ==> operator.spelling() == "in"@,
        operator is NotIn ==> operator.spelling() == "not_in"@,
        operator is Regex ==> operator.spelling() == "regex"@,
        operator is RegexIgnoreCase ==> operator.spelling() == "regex_ignore_case"@,
        operator is Lt ==> operator.spelling() == "lt"@,
        operator is Lte ==> operator.spelling() == "lte"@,
        operator is Gt ==> operator.spelling() == "gt"@,
        operator is Gte ==> operator.spelling() == "gte"@,
        set is Eq ==> set.spelling() == "eq"@,
        set is In ==> set.spelling() == "in"@,
        set is NotIn ==> set.spelling() == "not_in"@,
        set is Lt ==> set.spelling() == "lt"@,
        set is Lte ==> set.spelling() == "lte"@,
        set is Gt ==> set.spelling() == "gt"@,
        set is Gte ==> set.spelling() == "gte"@,
        quantifier is Any ==> quantifier.spelling() == "any"@,
        quantifier is All ==> quantifier.spelling() == "all"@,
        quantifier is NoneOf ==> quantifier.spelling() == "none"@,
        quantifier is Is ==> quantifier.spelling() == "is"@,
{
}

/// What is spelled is read as the operator that it spells, and a text that
/// spells none as none. The operators of sets are the operators of texts that
/// compare or test membership.
pub proof fn law_spellings_are_read_back(
    operator: TextOperator,
    quantifier: RelationQuantifier,
    set: SetOperator,
    label: Seq<char>,
)
    ensures
        TextOperator::spelled(operator.spelling()) == Some(operator),
        RelationQuantifier::spelled(quantifier.spelling()) == Some(quantifier),
        TextOperator::spelled(label) matches Some(found) ==> found.spelling() == label,
        RelationQuantifier::spelled(label) matches Some(found) ==> found.spelling() == label,
        operator.as_set() is Some <==> operator is Eq || operator is In || operator is NotIn
            || operator is Lt || operator is Lte || operator is Gt || operator is Gte,
        operator.as_set() matches Some(found) ==> found.spelling() == operator.spelling(),
        TextOperator::of_set(set) is Some <==> !set.orders(),
        TextOperator::of_set(set) matches Some(found) ==> found.spelling() == set.spelling(),
        set.orders() <==> set is Lt || set is Lte || set is Gt || set is Gte,
        set.takes_set() <==> set is In || set is NotIn,
        operator.orders() <==> operator is Lt || operator is Lte || operator is Gt || operator
            is Gte,
        operator.takes_regex() <==> operator is Regex || operator is RegexIgnoreCase,
{
    let found = TextOperator::spelled(operator.spelling())->0;
    assert(operator.spelling() == operator.spelling());
    law_text_spellings_are_distinct(found, operator);
    let other = RelationQuantifier::spelled(quantifier.spelling())->0;
    assert(quantifier.spelling() == quantifier.spelling());
    law_quantifier_spellings_are_distinct(other, quantifier);
    law_set_spelling_agrees(operator);
}

} // verus!
