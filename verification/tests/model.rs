use marius_forge::page::model::{
    ChildTemplateSpec, NamedBlockRange, PageArena, PageBlockToken, PageComposeParseError, PageLinkError,
    PageValidationError, ParsedPageTemplate, StaticPartialRef, TemplateId,
};

#[test]
fn page_block_token_is_copy() {
    let a = PageBlockToken::BlockOpen { name: "header" };
    let _b = a;
    let _c = a;
    assert_eq!(a, PageBlockToken::BlockOpen { name: "header" });
}

#[test]
fn named_block_range_is_copy_half_open_and_arena_tagged() {
    let child_a = TemplateId(0);
    let child_b = TemplateId(1);
    let r_a = NamedBlockRange {
        name: "header",
        template: child_a,
        start: 3,
        end: 7,
        parent_index: None,
    };
    let r_b = NamedBlockRange {
        name: "header",
        template: child_b,
        start: 3,
        end: 7,
        parent_index: None,
    };
    let _copy = r_a;

    assert_eq!(
        r_a.end - r_a.start,
        4,
        "plage [start, end) : 4 tokens couverts"
    );
    assert_ne!(
        r_a, r_b,
        "même range, arène différente : distinguable par valeur"
    );
}

#[test]
fn child_template_spec_shape() {
    let this_child = TemplateId(0);
    let spec = ChildTemplateSpec {
        extends: "layouts/base.marius",
        blocks: vec![
            NamedBlockRange {
                name: "header",
                template: this_child,
                start: 0,
                end: 2,
            parent_index: None,
            },
            NamedBlockRange {
                name: "body",
                template: this_child,
                start: 3,
                end: 9,
            parent_index: None,
            },
        ],
    };
    assert_eq!(spec.blocks.len(), 2);
    assert_eq!(spec.blocks[0].name, "header");
    assert!(spec.blocks.iter().all(|b| b.template == this_child));
}

#[test]
fn static_partial_ref_has_no_len_field() {
    let r = StaticPartialRef {
        original_path: "partials/nav.html",
    };
    assert_eq!(r.original_path, "partials/nav.html");
}

#[test]
fn phase_errors_are_distinct_types() {
    let _parse: PageComposeParseError = PageComposeParseError::ExtendsNotFirst;
    let _link: PageLinkError<'_> = PageLinkError::OrphanBlock { name: "sidebar", template: TemplateId(0) };
    let _validation: PageValidationError<'_> = PageValidationError::ForLoopDetected;
}

#[test]
fn admit_twice_yields_distinct_template_ids() {
    let mut arena = PageArena::default();
    let child = ParsedPageTemplate {
        extends: Some("parent.marius"),
        tokens: Vec::new(),
    };
    let parent = ParsedPageTemplate {
        extends: None,
        tokens: Vec::new(),
    };

    let child_id = arena.admit_template(child);
    let parent_id = arena.admit_template(parent);

    assert_ne!(
        child_id, parent_id,
        "deux admissions distinctes doivent produire deux TemplateId distincts"
    );
}

#[test]
fn get_after_admit_returns_unchanged_content() {
    let mut arena = PageArena::default();
    let admitted = ParsedPageTemplate {
        extends: Some("parent.marius"),
        tokens: Vec::new(),
    };
    let expected = admitted.clone();

    let id = arena.admit_template(admitted);

    assert_eq!(
        arena.get(id),
        &expected,
        "le contenu retourné par get doit être identique à celui admis"
    );
}
