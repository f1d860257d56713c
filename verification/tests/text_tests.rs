use ahlt::import::{
    entity_step, parse_ref, record_entity, record_relation, new_result, relation_to_insert, EntityOutcome,
    EntityStep,
};
use ahlt::data_manager::{ConflictMode, EntityImport, ImportItem, RelationImport};
use ahlt::props::{props_get, props_insert};
use ahlt::sql_export::{escape_sql, split_ref};
use ahlt::meetings::meeting_identity;
use ahlt::text::{decimal_string, parse_i32_or_zero, parse_i64_or_zero};

#[test]
fn escape_sql_doubles_quotes() {
    assert_eq!(escape_sql("O'Brien"), "O''Brien");
    assert_eq!(escape_sql("''"), "''''");
    assert_eq!(escape_sql("plain"), "plain");
}

#[test]
fn split_ref_splits_at_first_colon() {
    assert_eq!(split_ref("a:b:c"), ("a".to_string(), "b:c".to_string()));
    assert_eq!(split_ref("nocolon"), ("unknown".to_string(), "nocolon".to_string()));
}

#[test]
fn parse_ref_reports_missing_colon() {
    assert_eq!(parse_ref("tor:board").unwrap(), ("tor".to_string(), "board".to_string()));
    assert_eq!(
        parse_ref("board").unwrap_err(),
        "invalid entity reference 'board' — expected 'type:name'"
    );
}

#[test]
fn numbers_round_trip_through_text() {
    for n in [0i64, 7, -7, 1234567890, i64::MAX, i64::MIN] {
        assert_eq!(parse_i64_or_zero(&decimal_string(n)), n);
    }
    assert_eq!(parse_i64_or_zero("abc"), 0);
    assert_eq!(parse_i64_or_zero("+42"), 42);
    assert_eq!(parse_i32_or_zero("3000000000"), 0);
    assert_eq!(parse_i32_or_zero("-12"), -12);
}

#[test]
fn lowercase_uses_unicode_mapping() {
    let (name, _) = meeting_identity("ÉCOLE Board", "2024-01-01");
    assert_eq!(name, "école-board-2024-01-01");
}

#[test]
fn property_list_insert_then_get() {
    let mut props: Vec<(String, String)> = Vec::new();
    props_insert(&mut props, "status".to_string(), "draft".to_string());
    props_insert(&mut props, "title".to_string(), "T".to_string());
    props_insert(&mut props, "status".to_string(), "approved".to_string());
    assert_eq!(props.len(), 2);
    assert_eq!(props_get(&props, "status"), Some("approved".to_string()));
    assert_eq!(props_get(&props, "missing"), None);
}

#[test]
fn entity_steps_follow_the_conflict_mode() {
    assert!(matches!(entity_step(None, ConflictMode::Fail, "tor", "x"), Ok(EntityStep::Insert)));
    assert!(matches!(entity_step(Some(4), ConflictMode::Skip, "tor", "x"), Ok(EntityStep::Skip)));
    assert!(matches!(entity_step(Some(4), ConflictMode::Upsert, "tor", "x"), Ok(EntityStep::Upsert(4))));
    assert_eq!(
        entity_step(Some(4), ConflictMode::Fail, "tor", "x").unwrap_err(),
        "entity already exists: tor:x"
    );
}

fn ent(name: &str) -> EntityImport {
    EntityImport {
        entity_type: "tor".to_string(),
        name: name.to_string(),
        label: name.to_uppercase(),
        sort_order: 2,
        properties: vec![("k".to_string(), "v".to_string())],
    }
}

#[test]
fn import_tally_counts_every_entity() {
    let mut r = new_result();
    assert!(!record_entity(&mut r, &ent("a"), Ok(EntityOutcome::Created), ConflictMode::Skip));
    assert!(!record_entity(&mut r, &ent("b"), Ok(EntityOutcome::Skipped), ConflictMode::Skip));
    assert!(!record_entity(&mut r, &ent("c"), Err("bad".to_string()), ConflictMode::Skip));
    assert!(record_entity(&mut r, &ent("d"), Err("worse".to_string()), ConflictMode::Fail));
    assert_eq!(r.created + r.updated + r.skipped + r.errors.len(), 4);
    assert_eq!(r.errors[1].reason, "worse");
    match &r.errors[1].item {
        ImportItem::Entity(e) => {
            assert_eq!(e.name, "d");
            assert_eq!(e.label, "D");
            assert_eq!(e.sort_order, 2);
            assert_eq!(e.properties, vec![("k".to_string(), "v".to_string())]);
        }
        _ => panic!("expected the failed entity"),
    }
    let rel = RelationImport {
        relation_type: "member_of".to_string(),
        source: "user:a".to_string(),
        target: "tor:b".to_string(),
        properties: vec![],
    };
    record_relation(&mut r, &rel, Ok(()));
    assert_eq!(r.errors.len(), 2);
    record_relation(&mut r, &rel, Err("entity not found: tor:b".to_string()));
    match &r.errors[2].item {
        ImportItem::Relation(x) => assert_eq!(x.target, "tor:b"),
        _ => panic!("expected the failed relation"),
    }
}

#[test]
fn stored_relations_are_not_inserted_again() {
    assert_eq!(relation_to_insert(0, 3, 4, 5), Some((3, 4, 5)));
    assert_eq!(relation_to_insert(1, 3, 4, 5), None);
    assert_eq!(relation_to_insert(2, 3, 4, 5), None);
}
