use marius_forge::fragment::token::FlatPageToken;

#[test]
fn static_variant_infers_lifetime() {
    let src: &str = "hello";
    let token = FlatPageToken::Static(src);
    match token {
        FlatPageToken::Static(s) => assert_eq!(s, "hello"),
        _ => unreachable!(),
    }
}

#[test]
fn all_variants_are_copy() {
    let tokens: [FlatPageToken<'_>; 9] = [
        FlatPageToken::Static("content"),
        FlatPageToken::Field {
            entity: "user",
            field: "name",
        },
        FlatPageToken::IfBool {
            entity: "user",
            field: "active",
        },
        FlatPageToken::IfEq {
            entity: "record",
            field: "document_id",
            literal: 1,
        },
        FlatPageToken::IfNeq {
            entity: "record",
            field: "document_id",
            literal: 1,
        },
        FlatPageToken::Else,
        FlatPageToken::EndIf,
        FlatPageToken::StaticInclude {
            original_path: "templates/header.html",
            rel_from_manifest: "../templates/header.html",
            len: 42,
        },
        FlatPageToken::ModulesPlaceholder,
    ];

    let _a = tokens[0];
    let _b = tokens[0];
}

#[test]
fn if_eq_accepts_negative_literal() {
    let token = FlatPageToken::IfEq {
        entity: "record",
        field: "delta",
        literal: -1,
    };
    match token {
        FlatPageToken::IfEq { literal, .. } => assert_eq!(literal, -1),
        _ => unreachable!(),
    }
}
