use marius_forge::db::probe::{
    VarlenaNext, probe_after_check, probe_after_stats, probe_finish, probe_start,
};
use marius_forge::schema::EscapePolicy;

#[test]
fn varchar_bound_goes_straight_to_statistics() {
    let (probe, next) = probe_start("content", "identity", "slug".to_string(), 104, "");
    assert_eq!(probe.max_len, Some(100));
    assert_eq!(probe.escape_policy, EscapePolicy::Escaped);
    assert_eq!(next, VarlenaNext::ReadStats(100));
    assert_eq!(probe_after_stats(&probe, Some(70)), None);
    assert_eq!(
        probe_after_stats(&probe, Some(81)).as_deref(),
        Some("cargo:warning=DB-Forge [content.identity.slug]: avg_width observé (81B) > 80% de max_len (100B). Pression sur DYNAMIC_CAP.")
    );
    assert_eq!(probe_after_stats(&probe, None), None);
    let field = probe_finish(probe);
    assert_eq!(field.name, "slug");
    assert_eq!(field.ref_schema, "content");
    assert_eq!(field.ref_table, "identity");
    assert_eq!(field.max_len, Some(100));
    assert!(field.nullable);
}

#[test]
fn text_reads_its_check_constraint() {
    let (mut probe, next) = probe_start("content", "body", "summary".to_string(), -1, "marius:pre_escaped");
    assert_eq!(next, VarlenaNext::ReadCheck);
    assert_eq!(probe.escape_policy, EscapePolicy::PreEscaped);
    let (warning, next) = probe_after_check(&mut probe, Some("CHECK ((length(summary) <= 2000))"));
    assert_eq!(warning, None);
    assert_eq!(probe.max_len, Some(2000));
    assert_eq!(next, VarlenaNext::ReadStats(2000));
}

#[test]
fn unreadable_or_missing_check_leaves_the_field_unbounded() {
    let (mut probe, _) = probe_start("content", "body", "content".to_string(), -1, "marius:raw");
    let (warning, next) = probe_after_check(&mut probe, Some("CHECK ((length(content) <= 2*1000))"));
    assert_eq!(
        warning.as_deref(),
        Some("cargo:warning=DB-Forge [content.body.content]: CHECK trouvé mais longueur non parsable : `CHECK ((length(content) <= 2*1000))`. Traité comme non borné (max_len=None) — voir ADR-007.")
    );
    assert_eq!(probe.max_len, None);
    assert_eq!(next, VarlenaNext::Done);

    let (mut probe, _) = probe_start("content", "body", "notes".to_string(), -1, "");
    let (warning, next) = probe_after_check(&mut probe, None);
    assert_eq!(
        warning.as_deref(),
        Some("cargo:warning=DB-Forge [content.body.notes]: TEXT sans contrainte de longueur — champ non borné (Cold sauf si référencé par un template, alors erreur de compilation).")
    );
    assert_eq!(next, VarlenaNext::Done);
}

#[test]
fn escaped_bound_over_64_kib_refuses_the_column_unless_segmented() {
    let (_, next) = probe_start("content", "body", "content".to_string(), 20_004, "");
    assert_eq!(
        next,
        VarlenaNext::Refuse("DB-Forge [content.body.content]: max_escaped_len (120000B) > 64 KB. Réduire la contrainte VARCHAR/CHECK, ou tagger la colonne 'marius:large_content' si le contenu doit légitimement dépasser cette borne (projection segmentée).".to_string())
    );
    let (probe, next) = probe_start("content", "body", "content".to_string(), 20_004, "marius:large_content");
    assert!(probe.is_segment);
    assert_eq!(probe.escape_policy, EscapePolicy::Raw);
    assert_eq!(next, VarlenaNext::ReadStats(20_000));
}
