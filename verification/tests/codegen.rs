use marius_forge::fragment::codegen::{generate_aot_snippet, generate_segmented_snippet};
use marius_forge::fragment::token::FlatPageToken;
use marius_forge::schema::{EscapePolicy, FieldKind, FieldSpec, SchemaIndex, VarlenField};

fn make_schema<'a>(fixed: &'a [FieldSpec], varlena: &'a [VarlenField]) -> SchemaIndex<'a> {
    SchemaIndex { fixed, varlena }
}

#[test]
fn test_generate_aot_snippet_typed() {
    let fixed = vec![
        FieldSpec {
            name: "title".to_string(),
            kind: FieldKind::I32,
            attnum: 1,
        },
        FieldSpec {
            name: "is_published".to_string(),
            kind: FieldKind::Bool,
            attnum: 2,
        },
    ];
    let varlena = vec![VarlenField {
        name: "body".to_string(),
        ref_schema: "test_schema".to_string(),
        ref_table: "test_table".to_string(),
        max_len: Some(1000),
        escape_policy: EscapePolicy::Escaped,
        is_segment: false,
        nullable: true,
        max_escaped_len_override: None,
    }];
    let schema = make_schema(&fixed, &varlena);

    let tokens: &[FlatPageToken<'_>] = &[
        FlatPageToken::Static("<article>"),
        FlatPageToken::Field {
            entity: "record",
            field: "title",
        },
        FlatPageToken::Field {
            entity: "varlena",
            field: "body",
        },
        FlatPageToken::IfBool {
            entity: "record",
            field: "is_published",
        },
        FlatPageToken::Static("<span>publié</span>"),
        FlatPageToken::EndIf,
        FlatPageToken::StaticInclude {
            original_path: "...",
            rel_from_manifest: "frag.html",
            len: 42,
        },
    ];

    let got = generate_aot_snippet(
        tokens,
        &schema,
        |_| unreachable!("aucun AssetRef dans ce test"),
        "",
    );

    assert!(
        got.contains("let body_ref: Option<&str> = varlena.body.as_deref();"),
        "déclaration varlena absente:\n{got}"
    );
    assert!(
        got.contains(
            r#"::std::fmt::Write::write_fmt(buf, format_args!("{}", record.title)).ok();"#
        ),
        "write_fmt absent:\n{got}"
    );
    assert!(
        got.contains("if let Some(s) = body_ref { marius_html_escape(s, buf); }"),
        "html_escape absent:\n{got}"
    );
    assert!(
        got.contains("if record.is_published != 0 {"),
        "condition u8 absente:\n{got}"
    );
    assert!(
        got.contains(r#"buf.push_str(include_str!("frag.html"));"#),
        "include_str absent:\n{got}"
    );
    assert!(
        !got.contains("buf.reserve"),
        "buf.reserve ne doit pas être dans le snippet:\n{got}"
    );
}

#[test]
fn test_generate_aot_snippet_raw_field_bypasses_html_escape() {
    let fixed: Vec<FieldSpec> = vec![];
    let varlena = vec![VarlenField {
        name: "content".to_string(),
        ref_schema: "content".to_string(),
        ref_table: "body".to_string(),
        max_len: Some(32_000),
        escape_policy: EscapePolicy::Raw,
        is_segment: false,
        nullable: true,
        max_escaped_len_override: None,
    }];
    let schema = make_schema(&fixed, &varlena);

    let tokens: &[FlatPageToken<'_>] = &[FlatPageToken::Field {
        entity: "varlena",
        field: "content",
    }];

    let got = generate_aot_snippet(
        tokens,
        &schema,
        |_| unreachable!("aucun AssetRef dans ce test"),
        "",
    );

    assert!(
        got.contains("let content_ref: Option<&str> = varlena.content.as_deref();"),
        "déclaration varlena absente:\n{got}"
    );
    assert!(
        got.contains("if let Some(s) = content_ref { buf.push_str(s); }"),
        "buf.push_str direct absent (Raw ne doit jamais échapper):\n{got}"
    );
    assert!(
        !got.contains("marius_html_escape"),
        "marius_html_escape ne doit JAMAIS apparaître pour un champ Raw:\n{got}"
    );
}

#[test]
fn test_generate_aot_snippet_no_varlena() {
    let fixed = vec![FieldSpec {
        name: "id".to_string(),
        kind: FieldKind::I64,
        attnum: 1,
    }];
    let schema = make_schema(&fixed, &[]);
    let tokens: &[FlatPageToken<'_>] = &[
        FlatPageToken::Static("<p>"),
        FlatPageToken::Field {
            entity: "record",
            field: "id",
        },
        FlatPageToken::Static("</p>"),
    ];
    let got = generate_aot_snippet(
        tokens,
        &schema,
        |_| unreachable!("aucun AssetRef dans ce test"),
        "",
    );
    assert!(
        !got.contains("_ref"),
        "pas de déclaration ref sans varlena:\n{got}"
    );
    assert!(got.contains("record.id"), "champ id absent:\n{got}");
    assert!(
        !got.contains("buf.reserve"),
        "buf.reserve hors scope:\n{got}"
    );
}

fn segment_field(name: &str) -> VarlenField {
    VarlenField {
        name: name.to_string(),
        ref_schema: "content".to_string(),
        ref_table: "body".to_string(),
        max_len: Some(32_000),
        escape_policy: EscapePolicy::Raw,
        is_segment: true,
        nullable: true,
        max_escaped_len_override: None,
    }
}

#[test]
fn generate_segmented_snippet_splits_around_segment_field() {
    let fixed: Vec<FieldSpec> = vec![];
    let varlena = vec![segment_field("content")];
    let schema = make_schema(&fixed, &varlena);

    let tokens: &[FlatPageToken<'_>] = &[
        FlatPageToken::Static("<article>"),
        FlatPageToken::Field {
            entity: "varlena",
            field: "content",
        },
        FlatPageToken::Static("</article>"),
    ];

    let got = generate_segmented_snippet(
        tokens,
        &schema,
        |_| unreachable!("aucun AssetRef dans ce test"),
        "",
    );

    assert!(
        got.contains("let mut seg_start: usize = buf.len();"),
        "déclaration seg_start absente:\n{got}"
    );
    assert!(
        got.contains("segments.push(marius_projection::Segment::Buffered"),
        "push Buffered absent:\n{got}"
    );
    assert!(
        got.contains(
            "if let Some(s) = content_ref { segments.push(marius_projection::Segment::Borrowed(s)); }"
        ),
        "push Borrowed absent ou mal formé:\n{got}"
    );
    assert!(
        !got.contains("marius_html_escape"),
        "un champ segmenté ne doit jamais passer par marius_html_escape:\n{got}"
    );
    assert_eq!(
        got.matches("Segment::Buffered").count(),
        2,
        "deux runs Buffered attendus (avant/après le champ segmenté):\n{got}"
    );
}

#[test]
fn generate_segmented_snippet_handles_segment_inside_if_block() {
    let fixed: Vec<FieldSpec> = vec![];
    let varlena = vec![segment_field("content")];
    let schema = make_schema(&fixed, &varlena);

    let tokens: &[FlatPageToken<'_>] = &[
        FlatPageToken::Static("<p>"),
        FlatPageToken::IfBool {
            entity: "record",
            field: "is_readable",
        },
        FlatPageToken::Field {
            entity: "varlena",
            field: "content",
        },
        FlatPageToken::EndIf,
        FlatPageToken::Static("</p>"),
    ];

    let got = generate_segmented_snippet(
        tokens,
        &schema,
        |_| unreachable!("aucun AssetRef dans ce test"),
        "",
    );

    assert!(
        got.contains("    segments.push(marius_projection::Segment::Buffered"),
        "le push à l'intérieur du bloc if devrait être indenté :\n{got}"
    );
    assert!(
        got.contains("if record.is_readable != 0 {"),
        "bloc if absent:\n{got}"
    );
    let last_push_line = got
        .lines()
        .filter(|l| l.trim_start().starts_with("segments.push"))
        .next_back()
        .expect("au moins un push attendu");
    assert!(
        !last_push_line.starts_with(' '),
        "le push final doit être à la racine, pas à l'intérieur du if:\n{got}"
    );
}

#[test]
fn generate_segmented_snippet_final_close_always_emitted() {
    let fixed: Vec<FieldSpec> = vec![];
    let varlena: Vec<VarlenField> = vec![];
    let schema = make_schema(&fixed, &varlena);

    let tokens: &[FlatPageToken<'_>] = &[FlatPageToken::Static("<p>Rien à segmenter</p>")];

    let got = generate_segmented_snippet(
        tokens,
        &schema,
        |_| unreachable!("aucun AssetRef dans ce test"),
        "",
    );

    assert_eq!(
        got.matches("Segment::Buffered").count(),
        1,
        "un seul run Buffered attendu, couvrant tout buf:\n{got}"
    );
}
