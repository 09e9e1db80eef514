use marius_forge::fragment::lexer::{RawSpan, SpanKind, scan};
use marius_forge::fragment::parser::{PageParseError, parse_tokens};
use marius_forge::fragment::token::FlatPageToken;

#[test]
fn parse_full_template() {
    let src =
        "hello {{ user.name }} {% if user.active %} {% include fragment.html %} {% endif %}";
    let got = parse_tokens(scan(src)).expect("parsing doit réussir sur un template valide");

    let expected: &[FlatPageToken<'_>] = &[
        FlatPageToken::Static("hello "),
        FlatPageToken::Field {
            entity: "user",
            field: "name",
        },
        FlatPageToken::Static(" "),
        FlatPageToken::IfBool {
            entity: "user",
            field: "active",
        },
        FlatPageToken::Static(" "),
        FlatPageToken::StaticInclude {
            original_path: "fragment.html",
            rel_from_manifest: "fragment.html",
            len: 0,
        },
        FlatPageToken::Static(" "),
        FlatPageToken::EndIf,
    ];

    assert_eq!(
        got.len(),
        expected.len(),
        "nombre de tokens incorrect : got {}, expected {}",
        got.len(),
        expected.len()
    );

    for (i, (g, e)) in got.iter().zip(expected.iter()).enumerate() {
        assert_eq!(g, e, "token[{i}] incorrect");
    }
}

#[test]
fn error_on_unexpected_top_level_span() {

    let orphan = [RawSpan {
        slice: "}}",
        kind: SpanKind::ExprClose,
    }];
    let err = parse_tokens(orphan.to_vec()).unwrap_err();
    assert_eq!(
        err,
        PageParseError::UnexpectedToken {
            expected: "Literal | ExprOpen | BlockOpen",
            got: SpanKind::ExprClose,
        }
    );
}

#[test]
fn error_on_if_without_dot() {
    let src = "{% if active %}";
    let err = parse_tokens(scan(src)).unwrap_err();
    assert_eq!(err, PageParseError::InvalidBlockSequence);
}

#[test]
fn error_on_empty_block() {
    let src = "{% %}";
    let err = parse_tokens(scan(src)).unwrap_err();
    assert_eq!(
        err,
        PageParseError::UnexpectedToken {
            expected: "keyword (if | else | endif | include | asset | script | endscript)",
            got: SpanKind::BlockClose,
        }
    );
}

#[test]
fn if_bool_unchanged() {
    let src = "{% if record.is_readable %}A{% endif %}";
    let got = parse_tokens(scan(src)).expect("parsing doit réussir");
    assert_eq!(
        got,
        vec![
            FlatPageToken::IfBool {
                entity: "record",
                field: "is_readable"
            },
            FlatPageToken::Static("A"),
            FlatPageToken::EndIf,
        ]
    );
}

#[test]
fn if_bool_with_else() {
    let src = "{% if record.is_readable %}A{% else %}B{% endif %}";
    let got = parse_tokens(scan(src)).expect("parsing doit réussir");
    assert_eq!(
        got,
        vec![
            FlatPageToken::IfBool {
                entity: "record",
                field: "is_readable"
            },
            FlatPageToken::Static("A"),
            FlatPageToken::Else,
            FlatPageToken::Static("B"),
            FlatPageToken::EndIf,
        ]
    );
}

#[test]
fn if_eq_positive_literal() {
    let src = "{% if record.document_id == 1 %}A{% endif %}";
    let got = parse_tokens(scan(src)).expect("parsing doit réussir");
    assert_eq!(
        got,
        vec![
            FlatPageToken::IfEq {
                entity: "record",
                field: "document_id",
                literal: 1,
            },
            FlatPageToken::Static("A"),
            FlatPageToken::EndIf,
        ]
    );
}

#[test]
fn if_eq_with_else() {
    let src = "{% if record.document_id == 1 %}A{% else %}B{% endif %}";
    let got = parse_tokens(scan(src)).expect("parsing doit réussir");
    assert_eq!(
        got,
        vec![
            FlatPageToken::IfEq {
                entity: "record",
                field: "document_id",
                literal: 1,
            },
            FlatPageToken::Static("A"),
            FlatPageToken::Else,
            FlatPageToken::Static("B"),
            FlatPageToken::EndIf,
        ]
    );
}

#[test]
fn if_eq_zero_literal() {
    let src = "{% if record.flag == 0 %}A{% endif %}";
    let got = parse_tokens(scan(src)).expect("parsing doit réussir");
    assert_eq!(
        got[0],
        FlatPageToken::IfEq {
            entity: "record",
            field: "flag",
            literal: 0,
        }
    );
}

#[test]
fn if_eq_negative_literal() {
    let src = "{% if record.delta == -1 %}A{% endif %}";
    let got = parse_tokens(scan(src)).expect("parsing doit réussir");
    assert_eq!(
        got[0],
        FlatPageToken::IfEq {
            entity: "record",
            field: "delta",
            literal: -1,
        }
    );
}

#[test]
fn if_eq_invalid_literal_is_rejected() {
    let src = "{% if record.document_id == abc %}A{% endif %}";
    let err = parse_tokens(scan(src)).unwrap_err();
    assert_eq!(err, PageParseError::InvalidBlockSequence);
}

#[test]
fn else_alone_is_valid_token() {
    let src = "{% else %}";
    let got = parse_tokens(scan(src)).expect("parsing doit réussir");
    assert_eq!(got, vec![FlatPageToken::Else]);
}

#[test]
fn if_neq_positive_literal() {
    let src = "{% if record.document_id != 1 %}A{% endif %}";
    let got = parse_tokens(scan(src)).expect("parsing doit réussir");
    assert_eq!(
        got,
        vec![
            FlatPageToken::IfNeq {
                entity: "record",
                field: "document_id",
                literal: 1,
            },
            FlatPageToken::Static("A"),
            FlatPageToken::EndIf,
        ]
    );
}

#[test]
fn if_neq_with_else() {
    let src = "{% if record.document_id != 1 %}A{% else %}B{% endif %}";
    let got = parse_tokens(scan(src)).expect("parsing doit réussir");
    assert_eq!(
        got,
        vec![
            FlatPageToken::IfNeq {
                entity: "record",
                field: "document_id",
                literal: 1,
            },
            FlatPageToken::Static("A"),
            FlatPageToken::Else,
            FlatPageToken::Static("B"),
            FlatPageToken::EndIf,
        ]
    );
}

#[test]
fn if_neq_negative_literal() {
    let src = "{% if record.delta != -1 %}A{% endif %}";
    let got = parse_tokens(scan(src)).expect("parsing doit réussir");
    assert_eq!(
        got[0],
        FlatPageToken::IfNeq {
            entity: "record",
            field: "delta",
            literal: -1,
        }
    );
}

#[test]
fn if_neq_invalid_literal_is_rejected() {
    let src = "{% if record.document_id != abc %}A{% endif %}";
    let err = parse_tokens(scan(src)).unwrap_err();
    assert_eq!(err, PageParseError::InvalidBlockSequence);
}
