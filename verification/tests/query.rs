//! Filter expressions: building, matching, reading, writing and describing
//! them.

use libtmux::decimal;
use libtmux::formats::catalog::DecoderKind;
use libtmux::formats::error::ListProfile;
use libtmux::formats::plan::FormatPlan;
use libtmux::json;
use libtmux::json::{FloatShape, Json, Member, Number};
use libtmux::query::error::FilterExpressionErrorKind;
use libtmux::query::expression::FilterExpr;
use libtmux::query::filterable::{FilterEnum, Filterable};
use libtmux::query::private::IntegerKind;
use libtmux::query::schema::{
    filter_schema, install_definitions, write_definition_name, write_envelope_schema,
    FilterFieldSchema, FilterSchemaDescriptor, FilterValueSchema, SchemaConflict,
};
use libtmux::server::hierarchy::{SessionTree, WindowTree};
use libtmux::snapshot::pane_info::{hydrate_pane_info, PaneInfo};
use libtmux::snapshot::value::PaneProgressState;
use libtmux::text;
use libtmux::version::TmuxVersion;

fn pane(overrides: &[(&str, &[u8])]) -> PaneInfo {
    let version = TmuxVersion::parse_output(b"tmux 3.7\n").ok().expect("version");
    let plan = FormatPlan::for_profile(ListProfile::Panes, &version);
    let mut stdout = Vec::new();
    for descriptor in plan.selected() {
        let value = overrides
            .iter()
            .find(|(name, _)| *name == descriptor.name())
            .map_or_else(
                || match descriptor.decoder() {
                    DecoderKind::PaneId => b"%1".as_slice(),
                    DecoderKind::PaneProgressState => b"normal",
                    DecoderKind::Text => b"text",
                    _ => b"0",
                },
                |(_, value)| *value,
            );
        for byte in value {
            if matches!(*byte, b'\\' | b'%') {
                stdout.push(b'\\');
            }
            stdout.push(*byte);
        }
        stdout.push(b'%');
    }
    stdout.push(b'\n');
    let rows = plan.parse_rows(&stdout).ok().expect("the row frames");
    hydrate_pane_info(&plan, &rows[0]).ok().expect("the row hydrates")
}

fn node(members: Vec<Member>) -> Json {
    json::object(members)
}

fn scalar(op: &str, field: &str, value: Json) -> Json {
    node(vec![
        json::member("op", json::string(op)),
        json::member("field", json::string(field)),
        json::member("value", value),
    ])
}

fn envelope(target: &str, expr: Json) -> Json {
    node(vec![
        json::member("version", Json::Number(Number::Unsigned(1))),
        json::member("target", json::string(target)),
        json::member("expr", expr),
    ])
}

fn decode(document: &Json) -> Result<FilterExpr<PaneInfo>, FilterExpressionErrorKind> {
    FilterExpr::<PaneInfo>::decode(document).map_err(|error| error.kind())
}

fn kind_of(document: &Json) -> FilterExpressionErrorKind {
    decode(document).err().expect("the document is refused")
}

// Matching.

#[test]
fn text_operators_match_bytes_and_folded_text() {
    let candidate = pane(&[("pane_title", "Straße".as_bytes())]);
    let title = || PaneInfo::filter_fields().pane_title;
    assert!(title().eq("Straße").matches(&candidate));
    assert!(!title().eq("strasse").matches(&candidate));
    assert!(title().eq_ignore_case("STRASSE").matches(&candidate));
    assert!(title().contains("raß").matches(&candidate));
    assert!(title().contains_ignore_case("RASS").matches(&candidate));
    assert!(title().starts_with("Str").matches(&candidate));
    assert!(title().starts_with_ignore_case("sTR").matches(&candidate));
    assert!(title().ends_with("aße").matches(&candidate));
    assert!(title().ends_with_ignore_case("ASSE").matches(&candidate));
    assert!(!title().ends_with("Str").matches(&candidate));
    assert!(title().is_in(&["a", "Straße"]).matches(&candidate));
    assert!(title().not_in(&["a", "b"]).matches(&candidate));
    assert!(title().not_in(&[]).matches(&candidate));
    assert!(!title().is_in(&[]).matches(&candidate));
}

#[test]
fn patterns_match_anywhere_and_fold_case_on_request() {
    let candidate = pane(&[("pane_title", b"build: OK")]);
    let title = || PaneInfo::filter_fields().pane_title;
    assert!(title().regex("O[KX]$").ok().expect("a pattern").matches(&candidate));
    assert!(!title().regex("ok$").ok().expect("a pattern").matches(&candidate));
    assert!(title()
        .regex_ignore_case("ok$")
        .ok()
        .expect("a pattern")
        .matches(&candidate));
    let error = title().regex("(").err().expect("a pattern that does not compile");
    assert_eq!(error.kind(), FilterExpressionErrorKind::InvalidRegex);
}

#[test]
fn text_that_is_not_utf8_matches_nothing() {
    let candidate = pane(&[("pane_title", b"a\xff")]);
    let title = || PaneInfo::filter_fields().pane_title;
    assert!(!title().eq("a").matches(&candidate));
    assert!(!title().starts_with("a").matches(&candidate));
    assert!(!title().not_in(&[]).matches(&candidate));
    assert!(!title().regex("a").ok().expect("a pattern").matches(&candidate));
    assert!(title().eq("a").not().matches(&candidate));
}

#[test]
fn integer_operators_compare_as_integers() {
    let candidate = pane(&[("pane_width", b"80"), ("pane_left", b"-3")]);
    let width = || PaneInfo::filter_fields().pane_width;
    assert!(width().lt(81).matches(&candidate));
    assert!(!width().lt(80).matches(&candidate));
    assert!(width().lte(80).matches(&candidate));
    assert!(width().gt(79).matches(&candidate));
    assert!(width().gte(80).matches(&candidate));
    assert!(!width().gte(81).matches(&candidate));
    assert!(width().is_in(&[1, 80]).matches(&candidate));
    assert!(!width().not_in(&[1, 80]).matches(&candidate));
    assert!(PaneInfo::filter_fields().pane_left.lt(-2).matches(&candidate));
}

#[test]
fn connectives_are_conjunction_disjunction_and_negation() {
    let candidate = pane(&[("pane_width", b"80"), ("pane_active", b"1")]);
    let wide = || PaneInfo::filter_fields().pane_width.gt(100);
    let active = || PaneInfo::filter_fields().pane_active.eq(true);
    assert!(!wide().and(active()).matches(&candidate));
    assert!(wide().or(active()).matches(&candidate));
    assert!(wide().not().and(active()).matches(&candidate));
    assert!(!active().not().matches(&candidate));
}

#[test]
fn equal_connectives_are_flattened() {
    let one = || PaneInfo::filter_fields().pane_width.eq(1);
    let two = || PaneInfo::filter_fields().pane_width.eq(2);
    let three = || PaneInfo::filter_fields().pane_width.eq(3);
    assert!(one().and(two()).and(three()).same(&one().and(two().and(three()))));
    assert!(one().or(two()).or(three()).same(&one().or(two().or(three()))));
    assert!(!one().and(two()).same(&two().and(one())));
    assert!(!one().and(two()).or(three()).same(&one().and(two().or(three()))));
    assert!(one().clone().same(&one()));
}

// Reading and writing.

#[test]
fn written_expressions_are_read_back() {
    let candidate = pane(&[("pane_width", b"80"), ("pane_title", b"logs")]);
    let fields = PaneInfo::filter_fields();
    let expressions = vec![
        fields.pane_width.gte(80),
        fields.pane_title.eq("logs").and(fields.pane_active.eq(false)),
        fields.pane_title.regex("^l").ok().expect("a pattern").not(),
        fields.pane_pb_state.is_in(&[PaneProgressState::Normal, PaneProgressState::Paused]),
        fields.pane_left.not_in(&[]).or(fields.history_bytes.eq(u64::MAX)),
    ];
    for expression in expressions {
        let written = expression.encode().ok().expect("the expression is written");
        let read = decode(&written).ok().expect("the expression is read");
        assert!(read.same(&expression));
        assert_eq!(read.matches(&candidate), expression.matches(&candidate));
        assert!(read.encode().ok().expect("it is written again").same(&written));
    }
}

#[test]
fn envelopes_hold_a_version_a_target_and_an_expression() {
    let written = PaneInfo::filter_fields()
        .pane_width
        .eq(80)
        .encode()
        .ok()
        .expect("the expression is written");
    let expected = envelope("pane", scalar("eq", "pane_width", json::string("80")));
    assert!(written.same(&expected));
}

#[test]
fn other_versions_are_refused() {
    let expr = || scalar("eq", "pane_width", json::string("80"));
    for (version, expected) in [
        (Json::Number(Number::Unsigned(2)), FilterExpressionErrorKind::UnsupportedVersion),
        (Json::Number(Number::Signed(-1)), FilterExpressionErrorKind::UnsupportedVersion),
        (json::string("1"), FilterExpressionErrorKind::InvalidStructure),
        (
            Json::Number(Number::Float(FloatShape::Other)),
            FilterExpressionErrorKind::InvalidStructure,
        ),
    ] {
        let document = node(vec![
            json::member("version", version),
            json::member("target", json::string("pane")),
            json::member("expr", expr()),
        ]);
        assert_eq!(kind_of(&document), expected);
    }
    let one = node(vec![
        json::member("expr", expr()),
        json::member("target", json::string("pane")),
        json::member("version", Json::Number(Number::Float(FloatShape::One))),
    ]);
    assert!(decode(&one).is_ok());
}

#[test]
fn malformed_documents_say_why() {
    let text = || json::string("x");
    let cases = vec![
        (Json::Null, FilterExpressionErrorKind::InvalidStructure),
        (
            envelope("pane", json::array(Vec::new())),
            FilterExpressionErrorKind::InvalidStructure,
        ),
        (
            envelope("window", scalar("eq", "pane_title", text())),
            FilterExpressionErrorKind::InvalidTarget,
        ),
        (
            envelope("pane", scalar("frobnicate", "pane_title", text())),
            FilterExpressionErrorKind::UnknownOperator,
        ),
        (
            envelope("pane", scalar("eq", "no_such_field", text())),
            FilterExpressionErrorKind::UnknownField,
        ),
        (
            envelope("pane", scalar("eq", "pane_width", json::string("080"))),
            FilterExpressionErrorKind::InvalidLiteral,
        ),
        (
            envelope("pane", scalar("eq", "pane_width", json::string("4294967296"))),
            FilterExpressionErrorKind::InvalidLiteral,
        ),
        (
            envelope("pane", scalar("regex", "pane_title", json::string("("))),
            FilterExpressionErrorKind::InvalidRegex,
        ),
        (
            envelope("pane", scalar("in", "pane_title", text())),
            FilterExpressionErrorKind::InvalidStructure,
        ),
        (
            envelope("pane", scalar("eq", "pane_pb_state", json::string("asleep"))),
            FilterExpressionErrorKind::InvalidLiteral,
        ),
    ];
    for (document, expected) in cases {
        assert_eq!(kind_of(&document), expected);
    }
    let quantified = envelope(
        "session_tree",
        node(vec![
            json::member("op", json::string("relation")),
            json::member("field", json::string("windows")),
            json::member("quantifier", json::string("most")),
            json::member("expr", scalar("eq", "window_name", text())),
        ]),
    );
    let error = FilterExpr::<SessionTree>::decode(&quantified).err().expect("a refusal");
    assert_eq!(error.kind(), FilterExpressionErrorKind::UnknownQuantifier);
}

#[test]
fn repeated_members_are_refused() {
    let document = node(vec![
        json::member("version", Json::Number(Number::Unsigned(1))),
        json::member("target", json::string("pane")),
        json::member("target", json::string("pane")),
        json::member("expr", scalar("eq", "pane_title", json::string("x"))),
    ]);
    assert_eq!(kind_of(&document), FilterExpressionErrorKind::InvalidStructure);
}

#[test]
fn expressions_beyond_the_limits_are_refused() {
    let negated = |depth: usize| {
        let mut expr = scalar("eq", "pane_title", json::string("x"));
        for _ in 1..depth {
            expr = node(vec![
                json::member("op", json::string("not")),
                json::member("expr", expr),
            ]);
        }
        envelope("pane", expr)
    };
    assert!(decode(&negated(64)).is_ok());
    assert_eq!(
        kind_of(&negated(65)),
        FilterExpressionErrorKind::InvalidStructure
    );
    let set = |count: usize| {
        let values = (0..count).map(|value| json::string(&value.to_string())).collect();
        envelope("pane", scalar("in", "pane_width", json::array(values)))
    };
    assert!(decode(&set(4096)).is_ok());
    assert_eq!(kind_of(&set(4097)), FilterExpressionErrorKind::InvalidStructure);
}

#[test]
fn relations_travel_with_their_quantifier() {
    let windows = SessionTree::filter_fields().windows;
    let panes = WindowTree::filter_fields().panes;
    let inner = libtmux::pane::Pane::filter_fields().pane_width.gt(100);
    let expression = windows.any(panes.none(inner));
    let written = expression.encode().ok().expect("the expression is written");
    let read = FilterExpr::<SessionTree>::decode(&written).ok().expect("it is read");
    assert!(read.same(&expression));
}

#[test]
fn expressions_that_are_read_back_accept_the_same_candidates() {
    let candidates = [
        pane(&[("pane_title", b"build"), ("pane_width", b"80"), ("pane_pb_state", b"error")]),
        pane(&[("pane_title", b"BUILD"), ("pane_width", b"120"), ("pane_active", b"1")]),
        pane(&[("pane_title", b"a\xff"), ("pane_left", b"-3")]),
    ];
    let fields = || PaneInfo::filter_fields();
    let expressions = [
        fields().pane_title.regex("^b").ok().expect("a pattern"),
        fields().pane_title.regex_ignore_case("^b").ok().expect("a pattern"),
        fields().pane_title.not_in(&[]),
        fields().pane_width.gt(100).or(fields().pane_active.eq(false)),
        fields().pane_left.lt(0).not(),
        fields().pane_pb_state.is_in(&[PaneProgressState::Error, PaneProgressState::Paused]),
    ];
    for expression in expressions {
        let written = expression.encode().ok().expect("the expression is written");
        let read = FilterExpr::<PaneInfo>::decode(&written).ok().expect("it is read");
        for candidate in &candidates {
            assert_eq!(read.matches(candidate), expression.matches(candidate));
        }
    }
}

// Renderings.

#[test]
fn snapshots_render_their_availability() {
    let rendered = pane(&[("pane_pb_state", b"paused"), ("pane_dead_status", b"")]).debug_text();
    assert!(rendered.contains("pane_pb_state: Available(Paused)"));
    assert!(rendered.contains("pane_dead_status: Absent"));
    assert!(rendered.contains("pane_width: 0"));
}

#[test]
fn renderings_show_no_operand() {
    let secret = "sentinel-operand";
    let fields = PaneInfo::filter_fields();
    let expression = fields
        .pane_title
        .eq(secret)
        .and(fields.pane_path.regex(secret).ok().expect("a pattern"))
        .not();
    let rendered = expression.redacted();
    assert!(!rendered.contains(secret));
    assert_eq!(
        rendered,
        "Not(And([Predicate { target: \"pane\", field: \"pane_title\", operator: \"eq\" }, \
         Predicate { target: \"pane\", field: \"pane_path\", operator: \"regex\" }]))"
    );
    assert_eq!(
        fields.pane_title.debug_text(),
        "TextField { target: \"pane\", field: \"pane_title\" }"
    );
    let relation = SessionTree::filter_fields()
        .windows
        .all(WindowTree::filter_fields().window.window_name.eq(secret))
        .redacted();
    assert_eq!(
        relation,
        "Relation { target: \"session_tree\", field: \"windows\", quantifier: \"all\", \
         expression: Predicate { target: \"window_tree\", field: \"window_name\", \
         operator: \"eq\" } }"
    );
}

// Schemas.

fn names(document: &Json) -> Vec<String> {
    match document {
        Json::Object(members) => members.iter().map(|member| member.name.clone()).collect(),
        _ => panic!("an object"),
    }
}

fn lookup<'a>(document: &'a Json, name: &str) -> &'a Json {
    match document {
        Json::Object(members) => members
            .iter()
            .find(|member| member.name == name)
            .map(|member| &member.value)
            .expect("the member exists"),
        _ => panic!("an object"),
    }
}

#[test]
fn catalogs_start_with_their_target() {
    assert_eq!(filter_schema::<SessionTree>().len(), 3);
    assert_eq!(filter_schema::<WindowTree>().len(), 2);
    assert_eq!(filter_schema::<PaneInfo>().len(), 1);
    for (catalog, target) in [
        (filter_schema::<SessionTree>(), "session_tree"),
        (filter_schema::<WindowTree>(), "window_tree"),
        (filter_schema::<PaneInfo>(), "pane"),
    ] {
        let mut definitions: Vec<Member> = Vec::new();
        assert!(install_definitions("/$defs/", &catalog, &mut definitions).is_ok());
        let first = write_definition_name(target);
        assert!(definitions.iter().any(|member| member.name == first));
        assert_eq!(definitions.len(), catalog.len());
    }
}

#[test]
fn envelope_schemas_refer_to_the_expressions_of_their_target() {
    let schema = write_envelope_schema("/$defs/", "pane");
    assert_eq!(
        names(&schema),
        ["additionalProperties", "properties", "required", "type"]
    );
    let properties = lookup(&schema, "properties");
    assert_eq!(names(properties), ["expr", "target", "version"]);
    let expected = json::object(vec![json::member("const", json::string("pane"))]);
    let target = lookup(properties, "target");
    assert!(lookup(target, "const").same(lookup(&expected, "const")));
    let reference = lookup(lookup(properties, "expr"), "$ref");
    assert_eq!(write_definition_name("pane"), "libtmux_filter_expr_pane");
    assert!(reference.same(&json::string("#/$defs/libtmux_filter_expr_pane")));
}

#[test]
fn installing_defines_every_related_grammar_once() {
    let catalog = filter_schema::<SessionTree>();
    let mut definitions: Vec<Member> = Vec::new();
    assert!(install_definitions("/$defs/", &catalog, &mut definitions).is_ok());
    let mut defined: Vec<String> = definitions.iter().map(|member| member.name.clone()).collect();
    defined.sort();
    let mut expected = vec![
        write_definition_name("session_tree"),
        write_definition_name("window_tree"),
        write_definition_name("pane"),
    ];
    expected.sort();
    assert_eq!(defined, expected);
    assert!(install_definitions("/$defs/", &catalog, &mut definitions).is_ok());
    assert_eq!(definitions.len(), 3);
}

#[test]
fn conflicting_grammars_are_refused() {
    let field = |name| FilterFieldSchema::new(name, FilterValueSchema::Bool);
    let conflicting = vec![
        FilterSchemaDescriptor::new(
            "outer",
            vec![
                FilterFieldSchema::new("left", FilterValueSchema::Many(1)),
                FilterFieldSchema::new("right", FilterValueSchema::One(2)),
            ],
        ),
        FilterSchemaDescriptor::new("inner", vec![field("a")]),
        FilterSchemaDescriptor::new("inner", vec![field("b")]),
    ];
    let mut definitions: Vec<Member> = Vec::new();
    let conflict = install_definitions("/$defs/", &conflicting, &mut definitions)
        .err()
        .expect("two grammars of one target");
    assert!(matches!(conflict, SchemaConflict::Conflicting("inner")));

    let catalog = filter_schema::<PaneInfo>();
    let mut taken = vec![json::member(&write_definition_name("pane"), Json::Bool(true))];
    let conflict = install_definitions("/$defs/", &catalog, &mut taken)
        .err()
        .expect("another definition under the name");
    assert!(matches!(conflict, SchemaConflict::Colliding("pane")));
}

// Vocabulary and numbers.

#[test]
fn enumerations_name_their_variants() {
    assert_eq!(
        PaneProgressState::filter_variants(),
        ["hidden", "normal", "error", "indeterminate", "paused"]
    );
    assert_eq!(PaneProgressState::Paused.filter_name(), "paused");
}

#[test]
fn integer_families_have_the_bounds_of_their_types() {
    assert_eq!(
        IntegerKind::I32.signed_bounds(),
        Some((i128::from(i32::MIN), i128::from(i32::MAX)))
    );
    assert_eq!(IntegerKind::I32.unsigned_max(), None);
    assert_eq!(IntegerKind::U64.unsigned_max(), Some(u128::from(u64::MAX)));
    assert_eq!(IntegerKind::U64.signed_bounds(), None);
}

#[test]
fn numbers_are_written_and_read_canonically() {
    assert_eq!(decimal::format_signed(i128::MIN), i128::MIN.to_string());
    assert_eq!(decimal::format_unsigned(u128::MAX), u128::MAX.to_string());
    assert_eq!(decimal::format_signed(-7), "-7");
    assert_eq!(decimal::format_unsigned(0), "0");
}

#[test]
fn texts_are_ordered_by_bytes_without_repetitions() {
    assert_eq!(
        text::sort_set(&["b", "a", "é", "b", "ab"]),
        ["a", "ab", "b", "é"]
    );
}
