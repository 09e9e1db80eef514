use marius_forge::fragment::token::FlatPageToken;
use marius_forge::fragment::validator::{SemanticError, validate_ast};

#[test]
fn test_semantic_valid() {
    let tokens: &[FlatPageToken<'_>] = &[
        FlatPageToken::Static("avant"),
        FlatPageToken::IfBool {
            entity: "user",
            field: "active",
        },
        FlatPageToken::Field {
            entity: "user",
            field: "name",
        },
        FlatPageToken::EndIf,
        FlatPageToken::Static("entre"),
        FlatPageToken::IfBool {
            entity: "user",
            field: "admin",
        },
        FlatPageToken::Static("accès restreint"),
        FlatPageToken::EndIf,
        FlatPageToken::Static("après"),
    ];

    assert_eq!(validate_ast(tokens), Ok(()));
}

#[test]
fn test_semantic_errors() {
    let tokens: &[FlatPageToken<'_>] = &[
        FlatPageToken::EndIf,
        FlatPageToken::IfBool {
            entity: "user",
            field: "active",
        },
        FlatPageToken::IfBool {
            entity: "user",
            field: "admin",
        },
        FlatPageToken::EndIf,
        FlatPageToken::IfBool {
            entity: "user",
            field: "premium",
        },
    ];

    let expected = vec![
        SemanticError::UnexpectedEndIf,
        SemanticError::NestedIfNotSupported {
            nested_entity: "user",
            nested_field: "admin",
        },
        SemanticError::UnclosedIf {
            entity: "user",
            field: "premium",
        },
    ];

    assert_eq!(validate_ast(tokens), Err(expected));
}

#[test]
fn test_semantic_empty_ast() {
    assert_eq!(validate_ast(&[]), Ok(()));
}

#[test]
fn if_without_else_is_valid() {
    let tokens: &[FlatPageToken<'_>] = &[
        FlatPageToken::IfBool {
            entity: "record",
            field: "is_readable",
        },
        FlatPageToken::Static("A"),
        FlatPageToken::EndIf,
    ];
    assert_eq!(validate_ast(tokens), Ok(()));
}

#[test]
fn if_with_else_is_valid() {
    let tokens: &[FlatPageToken<'_>] = &[
        FlatPageToken::IfBool {
            entity: "record",
            field: "is_readable",
        },
        FlatPageToken::Static("A"),
        FlatPageToken::Else,
        FlatPageToken::Static("B"),
        FlatPageToken::EndIf,
    ];
    assert_eq!(validate_ast(tokens), Ok(()));
}

#[test]
fn if_eq_with_else_is_valid() {
    let tokens: &[FlatPageToken<'_>] = &[
        FlatPageToken::IfEq {
            entity: "record",
            field: "document_id",
            literal: 1,
        },
        FlatPageToken::Static("A"),
        FlatPageToken::Else,
        FlatPageToken::Static("B"),
        FlatPageToken::EndIf,
    ];
    assert_eq!(validate_ast(tokens), Ok(()));
}

#[test]
fn if_neq_with_else_is_valid() {
    let tokens: &[FlatPageToken<'_>] = &[
        FlatPageToken::IfNeq {
            entity: "record",
            field: "document_id",
            literal: 1,
        },
        FlatPageToken::Static("A"),
        FlatPageToken::Else,
        FlatPageToken::Static("B"),
        FlatPageToken::EndIf,
    ];
    assert_eq!(validate_ast(tokens), Ok(()));
}

#[test]
fn else_without_if_is_rejected() {
    let tokens: &[FlatPageToken<'_>] = &[FlatPageToken::Else];
    assert_eq!(
        validate_ast(tokens),
        Err(vec![SemanticError::UnexpectedElse])
    );
}

#[test]
fn else_after_endif_is_rejected() {
    let tokens: &[FlatPageToken<'_>] = &[
        FlatPageToken::IfBool {
            entity: "record",
            field: "is_readable",
        },
        FlatPageToken::Static("A"),
        FlatPageToken::EndIf,
        FlatPageToken::Else,
    ];
    assert_eq!(
        validate_ast(tokens),
        Err(vec![SemanticError::UnexpectedElse])
    );
}

#[test]
fn double_else_is_rejected() {
    let tokens: &[FlatPageToken<'_>] = &[
        FlatPageToken::IfBool {
            entity: "record",
            field: "is_readable",
        },
        FlatPageToken::Static("A"),
        FlatPageToken::Else,
        FlatPageToken::Static("B"),
        FlatPageToken::Else,
        FlatPageToken::Static("C"),
        FlatPageToken::EndIf,
    ];
    assert_eq!(
        validate_ast(tokens),
        Err(vec![SemanticError::DuplicateElse])
    );
}

#[test]
fn endif_without_if_is_rejected() {
    let tokens: &[FlatPageToken<'_>] = &[FlatPageToken::EndIf];
    assert_eq!(
        validate_ast(tokens),
        Err(vec![SemanticError::UnexpectedEndIf])
    );
}

#[test]
fn unclosed_if_in_else_branch_is_rejected() {
    let tokens: &[FlatPageToken<'_>] = &[
        FlatPageToken::IfEq {
            entity: "record",
            field: "document_id",
            literal: 1,
        },
        FlatPageToken::Static("A"),
        FlatPageToken::Else,
        FlatPageToken::Static("B"),
    ];
    assert_eq!(
        validate_ast(tokens),
        Err(vec![SemanticError::UnclosedIf {
            entity: "record",
            field: "document_id",
        }])
    );
}
