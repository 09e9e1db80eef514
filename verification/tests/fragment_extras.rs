use marius_forge::fragment::lexer::scan;
use marius_forge::page::parser::{detect_extends, parse_page_tokens};
use marius_forge::fragment::codegen::{generate_aot_snippet, generated_file_header};
use marius_forge::fragment::script_hoisting::HoistError;
use marius_forge::fragment::static_markers::{MarkerKind, MarkerSet, add_match_markers};
use marius_forge::fragment::token::{FlatPageToken, tokens_eq};
use marius_forge::naming::{relative_path_for_include_str, static_capacity, static_const_ident};
use marius_forge::schema::{EscapePolicy, FieldKind, FieldSpec, SchemaIndex, VarlenField};

fn field(name: &str, kind: FieldKind) -> FieldSpec {
    FieldSpec { name: name.to_string(), kind, attnum: 1 }
}

fn text(name: &str, max_len: Option<usize>, policy: EscapePolicy) -> VarlenField {
    VarlenField {
        name: name.to_string(),
        ref_schema: "content".to_string(),
        ref_table: "identity".to_string(),
        max_len,
        escape_policy: policy,
        is_segment: false,
        nullable: true,
        max_escaped_len_override: None,
    }
}

#[test]
fn constant_identifier_of_a_path() {
    assert_eq!(static_const_ident("partials/nav.html"), "PARTIALS_NAV_HTML");
    assert_eq!(static_const_ident("2024/foo.htm"), "_2024_FOO_HTM");
    assert_eq!(static_const_ident("é-x"), "__X");
    assert_eq!(static_const_ident(""), "");
}

#[test]
fn constant_identifier_is_always_a_valid_screaming_identifier() {
    for p in ["a b/c-d.e", "9lives", "_x", "ÀÉ", "layouts/base.marius"] {
        let id = static_const_ident(p);
        assert!(id.chars().all(|c| c.is_ascii_uppercase() || c.is_ascii_digit() || c == '_'), "{id}");
        assert!(!id.starts_with(|c: char| c.is_ascii_digit()), "{id}");
    }
}

#[test]
fn static_capacity_counts_the_article_markup() {
    let fields = vec![field("id", FieldKind::I64)];
    let varlena = vec![text("slug", Some(10), EscapePolicy::Escaped)];
    assert_eq!(static_capacity("content", "core", &fields, &varlena), 102);
    assert_eq!(static_capacity("a", "b", &[], &[]), 16 + 1 + 1 + 1 + 11 + 6 + 15);
}

#[test]
fn include_path_joins_manifest_directory() {
    let p = relative_path_for_include_str("/srv/app", "templates/page.marius");
    assert_eq!(p, "/srv/app/templates/page.marius");
}

#[test]
fn field_kinds_of_sql_types() {
    assert_eq!(FieldKind::from_sql_type("BIGINT"), Some(FieldKind::I64));
    assert_eq!(FieldKind::from_sql_type("timestamp with time zone"), Some(FieldKind::I64));
    assert_eq!(FieldKind::from_sql_type("date"), Some(FieldKind::I32));
    assert_eq!(FieldKind::from_sql_type(" smallint "), Some(FieldKind::I16));
    assert_eq!(FieldKind::from_sql_type("boolean"), Some(FieldKind::Bool));
    assert_eq!(FieldKind::from_sql_type("real"), Some(FieldKind::F32));
    assert_eq!(FieldKind::from_sql_type("double precision"), Some(FieldKind::F64));
    assert_eq!(FieldKind::from_sql_type("character varying(20)"), None);
    assert_eq!(FieldKind::from_sql_type("uuid"), None);
    assert_eq!(FieldKind::I64.max_display_width(), 20);
    assert_eq!(FieldKind::Bool.max_display_width(), 5);
}

#[test]
fn escaped_length_follows_segment_override_then_policy() {
    assert_eq!(text("a", Some(10), EscapePolicy::Escaped).max_escaped_len(), Some(60));
    assert_eq!(text("a", Some(10), EscapePolicy::Raw).max_escaped_len(), Some(10));
    assert_eq!(text("a", None, EscapePolicy::Raw).max_escaped_len(), None);
    let mut o = text("a", Some(10), EscapePolicy::Escaped);
    o.max_escaped_len_override = Some(7);
    assert_eq!(o.max_escaped_len(), Some(7));
    o.is_segment = true;
    assert_eq!(o.max_escaped_len(), Some(0));
}

#[test]
fn schema_index_finds_first_field_by_name() {
    let fixed = vec![field("id", FieldKind::I64), field("id", FieldKind::I32)];
    let varlena = vec![text("slug", None, EscapePolicy::Escaped)];
    let schema = SchemaIndex { fixed: &fixed, varlena: &varlena };
    assert_eq!(schema.find_fixed("id").map(|f| f.kind), Some(FieldKind::I64));
    assert!(schema.find_fixed("slug").is_none());
    assert_eq!(schema.find_varlena("slug").map(|v| v.name.as_str()), Some("slug"));
    assert!(schema.find_varlena("id").is_none());
}

#[test]
fn marker_set_ignores_duplicates_and_keeps_first_order() {
    let mut s = MarkerSet::new();
    assert!(s.is_empty());
    s.insert("b".to_string());
    s.insert("a".to_string());
    s.insert("b".to_string());
    assert_eq!(s.len(), 2);
    assert!(s.contains("a") && s.contains("b") && !s.contains("c"));
    assert_eq!(s.names(), &["b".to_string(), "a".to_string()]);
}

#[test]
fn hoist_errors_describe_themselves() {
    assert!(HoistError::ConditionalScript.message().contains("{% if %}"));
    assert!(HoistError::UnbalancedScriptBlock.message().contains("déséquilibré"));
}

#[test]
fn token_streams_compare_by_value() {
    let a = [FlatPageToken::Static("x"), FlatPageToken::EndIf];
    let b = [FlatPageToken::Static("x"), FlatPageToken::EndIf];
    let c = [FlatPageToken::Static("y"), FlatPageToken::EndIf];
    assert!(tokens_eq(&a, &b));
    assert!(!tokens_eq(&a, &c));
    assert!(!tokens_eq(&a, &a[..1]));
}

#[test]
fn file_header_defines_the_escape_helper() {
    let h = generated_file_header();
    assert!(h.starts_with("// GÉNÉRÉ PAR DB-FORGE + FRAGMENT-FORGE"));
    assert!(h.contains("fn marius_html_escape(s: &str, buf: &mut String) {"));
    assert!(h.contains("'&'  => buf.push_str(\"&amp;\"),"));
}

#[test]
fn varlena_references_are_declared_in_name_order() {
    let varlena = vec![
        text("zeta", Some(5), EscapePolicy::Escaped),
        text("alpha", Some(5), EscapePolicy::Escaped),
    ];
    let schema = SchemaIndex { fixed: &[], varlena: &varlena };
    let tokens = [
        FlatPageToken::Field { entity: "record", field: "zeta" },
        FlatPageToken::Field { entity: "record", field: "alpha" },
        FlatPageToken::Field { entity: "record", field: "zeta" },
    ];
    let code = generate_aot_snippet(&tokens, &schema, |_| "", "");
    let a = code.find("alpha").unwrap();
    let z = code.find("zeta").unwrap();
    assert!(a < z, "{code}");
}

#[test]
fn match_markers_follow_each_category() {
    let class_caps = vec![vec![Some(" class=\"a  b\"".to_string()), Some("a  b".to_string()), None]];
    let mut s = MarkerSet::new();
    add_match_markers(&mut s, &MarkerKind::Class, &class_caps);
    assert_eq!(s.names(), &["a".to_string(), "b".to_string()]);

    let id_caps = vec![
        vec![Some(" id=''".to_string()), None, Some(String::new())],
        vec![Some(" id='x'".to_string()), None, Some("x".to_string())],
    ];
    let mut s = MarkerSet::new();
    add_match_markers(&mut s, &MarkerKind::Id, &id_caps);
    assert_eq!(s.names(), &["x".to_string()]);

    let el_caps = vec![vec![Some("<main".to_string()), Some("main".to_string())]];
    let mut s = MarkerSet::new();
    add_match_markers(&mut s, &MarkerKind::Element, &el_caps);
    add_match_markers(&mut s, &MarkerKind::Element, &el_caps);
    assert_eq!(s.len(), 1);
    assert!(s.contains("main"));
}

#[test]
fn detect_extends_agrees_with_the_parsed_parent() {
    for src in [
        "{% extends base.marius %}<p>x</p>",
        "<p>{% if record.a %}y{% endif %}</p>",
        "{% block body %}z{% endblock %}",
        "{{ record.title }}",
        "",
    ] {
        let parsed = parse_page_tokens(scan(src)).expect("template valide");
        assert_eq!(parsed.extends.is_some(), detect_extends(src), "{src}");
    }
}

#[test]
fn scanned_spans_are_never_empty() {
    for src in ["{{ a.b }}", "x{%  if  a.b  %}{% endif %}", "{{}}", "{%%}", "{{ .. }}"] {
        for span in scan(src) {
            assert!(!span.slice.is_empty(), "{src}");
        }
    }
}

#[test]
fn static_text_is_emitted_as_debug_escaped_literals() {
    let schema = SchemaIndex { fixed: &[], varlena: &[] };
    let tokens = [FlatPageToken::Static("x"), FlatPageToken::Static("a\"b\n")];
    let code = generate_aot_snippet(&tokens, &schema, |_| "", "");
    assert!(code.contains("buf.push('x');\n"), "{code}");
    assert!(code.contains("buf.push_str(\"a\\\"b\\n\");\n"), "{code}");
}
