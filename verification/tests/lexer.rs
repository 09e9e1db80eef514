use marius_forge::fragment::lexer::{RawSpan, SpanKind, scan};

fn s(slice: &str, kind: SpanKind) -> RawSpan<'_> {
    RawSpan { slice, kind }
}

#[test]
fn scan_expr_interpolation() {
    let src = "hello {{ user.name }} world";
    let got: Vec<_> = scan(src);

    let expected = [
        s("hello ", SpanKind::Literal),
        s("{{", SpanKind::ExprOpen),
        s("user", SpanKind::Ident),
        s(".", SpanKind::Punct),
        s("name", SpanKind::Ident),
        s("}}", SpanKind::ExprClose),
        s(" world", SpanKind::Literal),
    ];

    assert_eq!(got.len(), expected.len(), "nombre de spans incorrect");
    for (i, (got_span, exp)) in got.iter().zip(expected.iter()).enumerate() {
        assert_eq!(got_span, exp, "span[{i}] incorrect");
    }
}

#[test]
fn scan_block_if_endif() {
    let src = "{% if user.active %}oui{% endif %}";
    let got: Vec<_> = scan(src);

    let expected = [
        s("{%", SpanKind::BlockOpen),
        s("if", SpanKind::Ident),
        s("user.active", SpanKind::Ident),
        s("%}", SpanKind::BlockClose),
        s("oui", SpanKind::Literal),
        s("{%", SpanKind::BlockOpen),
        s("endif", SpanKind::Ident),
        s("%}", SpanKind::BlockClose),
    ];

    assert_eq!(got.len(), expected.len(), "nombre de spans incorrect");
    for (i, (g, e)) in got.iter().zip(expected.iter()).enumerate() {
        assert_eq!(g, e, "span[{i}]");
    }
}

#[test]
fn scan_empty_and_literal_only() {
    assert!(
        scan("").is_empty(),
        "source vide doit être épuisée immédiatement"
    );

    let got: Vec<_> = scan("<p>texte statique</p>");
    assert_eq!(got, [s("<p>texte statique</p>", SpanKind::Literal)]);
}

#[test]
fn scan_delimiter_at_start() {
    let got: Vec<_> = scan("{{ x }}");
    assert_eq!(
        got[0].kind,
        SpanKind::ExprOpen,
        "le premier span doit être ExprOpen, pas un Literal vide"
    );
}
