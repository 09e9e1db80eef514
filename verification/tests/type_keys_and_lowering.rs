use marius_forge::db::mapping::{map_type, map_type_key};
use marius_forge::fragment::token::FlatPageToken;
use marius_forge::page::blocks::{blocks_are_balanced, collect_blocks};
use marius_forge::page::linker::{link, LinkPlan};
use marius_forge::page::lowering::{lower, lower_with_fuel};
use marius_forge::page::model::{PageArena, PageBlockToken, ParsedPageTemplate, StaticPartialRef};
use marius_forge::page::token::PageSourceToken;
use marius_forge::schema::{field_kind_from_key, normalize_sql_type, FieldKind};

#[test]
fn map_type_key_reads_a_normalized_key() {
    let m = map_type_key("integer");
    assert_eq!(m.row_type, "i32");
    assert!(m.is_fixed);
    assert_eq!(m.size_bytes, 4);
    let u = map_type_key("pg_lsn");
    assert_eq!(u.store_type, "u64");
    assert_eq!(u.select_cast, Some("({} - '0/0'::pg_lsn)::int8"));
    // The key is not normalized again: an upper-case key is unknown.
    let x = map_type_key("INTEGER");
    assert_eq!(x.row_type, "/* INCONNU */");
    assert!(!x.is_fixed);
}

#[test]
fn field_kind_from_key_reads_a_normalized_key() {
    assert_eq!(field_kind_from_key("timestamptz"), Some(FieldKind::I64));
    assert_eq!(field_kind_from_key("date"), Some(FieldKind::I32));
    assert_eq!(field_kind_from_key("double precision"), Some(FieldKind::F64));
    assert_eq!(field_kind_from_key("uuid"), None);
    assert_eq!(field_kind_from_key("text"), None);
    assert_eq!(field_kind_from_key("Date"), None);
}

#[test]
fn map_type_ignores_case_and_modifier() {
    let base = map_type("integer");
    for other in ["INTEGER", "Integer", "  integer  ", "integer(10)", "INTEGER (4)"] {
        let m = map_type(other);
        assert_eq!(m.row_type, base.row_type, "{other}");
        assert_eq!(m.store_type, base.store_type, "{other}");
        assert_eq!(m.from_expr, base.from_expr, "{other}");
        assert_eq!(m.default_sentinel, base.default_sentinel, "{other}");
        assert_eq!(m.is_fixed, base.is_fixed, "{other}");
        assert_eq!(m.size_bytes, base.size_bytes, "{other}");
        assert_eq!(m.alignment, base.alignment, "{other}");
        assert_eq!(m.select_cast, base.select_cast, "{other}");
    }
    assert_eq!(normalize_sql_type(" Character Varying(255) "), "character varying");
    assert_eq!(FieldKind::from_sql_type("SMALLINT"), Some(FieldKind::I16));
}

#[test]
fn fixed_exactly_when_size_is_positive() {
    for t in ["int8", "int4", "int2", "bool", "uuid", "timestamptz", "timestamp", "date",
        "float4", "float8", "text", "varchar(20)", "jsonb", "pg_lsn", "geometry", "money"] {
        let m = map_type(t);
        assert_eq!(m.is_fixed, m.size_bytes > 0, "{t}");
        if m.is_fixed {
            assert!(m.alignment >= 1 && m.size_bytes % m.alignment == 0, "{t}");
        }
    }
}

#[test]
fn lower_with_fuel_agrees_with_lower_when_it_succeeds() {
    let parent_tokens = vec![
        PageSourceToken::Runtime(FlatPageToken::Static("<h1>")),
        PageSourceToken::Block(PageBlockToken::BlockOpen { name: "title" }),
        PageSourceToken::Runtime(FlatPageToken::Static("Default")),
        PageSourceToken::Block(PageBlockToken::BlockEnd),
        PageSourceToken::Static(StaticPartialRef { original_path: "nav.html" }),
    ];
    let child_tokens = vec![
        PageSourceToken::Block(PageBlockToken::BlockOpen { name: "title" }),
        PageSourceToken::Runtime(FlatPageToken::Static("Child")),
        PageSourceToken::Block(PageBlockToken::BlockEnd),
    ];
    let mut arena = PageArena::default();
    let parent_id = arena.admit_template(ParsedPageTemplate {
        extends: None,
        tokens: parent_tokens.clone(),
    });
    let child_id = arena.admit_template(ParsedPageTemplate {
        extends: Some("parent.marius"),
        tokens: child_tokens.clone(),
    });
    let parent_blocks = collect_blocks(parent_id, &parent_tokens).expect("parent");
    let child_blocks = collect_blocks(child_id, &child_tokens).expect("child");
    let plan = link(&parent_blocks, &child_blocks, &[], |_| true).expect("link");

    let expected = vec![
        FlatPageToken::Static("<h1>"),
        FlatPageToken::Static("Child"),
        FlatPageToken::StaticInclude {
            original_path: "nav.html",
            rel_from_manifest: "nav.html",
            len: 0,
        },
    ];
    // One level of substitution is needed: no fuel is not enough.
    assert_eq!(lower_with_fuel(&parent_tokens, &plan, &arena, 0), None);
    assert_eq!(lower_with_fuel(&parent_tokens, &plan, &arena, 1), Some(expected.clone()));
    assert_eq!(lower_with_fuel(&parent_tokens, &plan, &arena, 8), Some(expected.clone()));
    assert_eq!(lower(&parent_tokens, &plan, &arena), expected);
}

#[test]
fn lower_with_fuel_refuses_what_lower_cannot_take() {
    let arena = PageArena::default();
    let plan = LinkPlan { substitutions: Vec::new() };
    let no_substitution = vec![
        PageSourceToken::Block(PageBlockToken::BlockOpen { name: "title" }),
        PageSourceToken::Block(PageBlockToken::BlockEnd),
    ];
    assert_eq!(lower_with_fuel(&no_substitution, &plan, &arena, 4), None);
    let stray_end = vec![
        PageSourceToken::Runtime(FlatPageToken::Static("x")),
        PageSourceToken::Block(PageBlockToken::BlockEnd),
    ];
    assert_eq!(lower_with_fuel(&stray_end, &plan, &arena, 4), None);
    let plain = vec![PageSourceToken::Runtime(FlatPageToken::Static("x"))];
    assert_eq!(
        lower_with_fuel(&plain, &plan, &arena, 0),
        Some(vec![FlatPageToken::Static("x")])
    );
}

#[test]
fn admitted_template_reads_back_after_later_admissions() {
    let mut arena = PageArena::default();
    let first = ParsedPageTemplate {
        extends: None,
        tokens: vec![PageSourceToken::Runtime(FlatPageToken::Static("first"))],
    };
    let id = arena.admit_template(first.clone());
    for k in 0..5 {
        let _ = arena.admit_template(ParsedPageTemplate {
            extends: Some("base.marius"),
            tokens: vec![PageSourceToken::Runtime(FlatPageToken::Static(if k % 2 == 0 {
                "even"
            } else {
                "odd"
            }))],
        });
    }
    assert_eq!(arena.get(id), &first);
    assert_eq!(arena.template_count(), 6);
}

#[test]
fn blocks_are_balanced_decides_what_collect_blocks_asks() {
    let open = |name| PageSourceToken::Block(PageBlockToken::BlockOpen { name });
    let end = || PageSourceToken::Block(PageBlockToken::BlockEnd);
    let text = || PageSourceToken::Runtime(FlatPageToken::Static("x"));
    assert!(blocks_are_balanced(&[]));
    assert!(blocks_are_balanced(&[text(), open("a"), text(), open("b"), end(), end()]));
    assert!(!blocks_are_balanced(&[open("a")]));
    assert!(!blocks_are_balanced(&[end(), open("a")]));
    assert!(!blocks_are_balanced(&[open("a"), end(), end(), open("b")]));
}
