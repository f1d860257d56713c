use ahlt::graph_sync::{
    capability_answer, entity_merge_cypher, governance_edge, governance_node, property_param,
    relation_delete_cypher, relation_merge_cypher, sanitize_label,
};
use ahlt::ontology::{
    entity_list_query, entity_type_summaries, graph_nodes, relation_type_summaries, schema_label,
    schema_nodes, EntitySample, RelationPattern, RelationTypeSummary,
};

#[test]
fn schema_labels_are_spaced_and_capitalised() {
    assert_eq!(schema_label("tor_function"), "Tor function");
    assert_eq!(schema_label("user"), "User");
    assert_eq!(schema_label(""), "");
    // a first character longer than one byte is left as it is
    assert_eq!(schema_label("élan_vital"), "élan vital");
}

#[test]
fn schema_nodes_carry_their_keys() {
    let counts = vec![("role".to_string(), 2), ("user".to_string(), 5)];
    let keys = vec![
        ("role".to_string(), "description".to_string()),
        ("user".to_string(), "email".to_string()),
        ("user".to_string(), "password".to_string()),
    ];
    let nodes = schema_nodes(&counts, &keys);
    assert_eq!(nodes.len(), 2);
    assert_eq!(nodes[0].id, "role");
    assert_eq!(nodes[0].label, "Role");
    assert_eq!(nodes[0].count, 2);
    assert_eq!(nodes[0].property_keys, vec!["description".to_string()]);
    assert_eq!(nodes[1].property_keys, vec!["email".to_string(), "password".to_string()]);
}

#[test]
fn type_summaries_show_five_samples() {
    let counts = vec![("tor".to_string(), 7)];
    let samples: Vec<(String, EntitySample)> = (0..7)
        .map(|i| ("tor".to_string(), EntitySample { id: i, name: format!("t{}", i), label: format!("T{}", i) }))
        .chain(std::iter::once(("user".to_string(), EntitySample { id: 99, name: "u".into(), label: "U".into() })))
        .collect();
    let s = entity_type_summaries(&counts, &vec![], &samples);
    assert_eq!(s.len(), 1);
    assert_eq!(s[0].count, 7);
    assert_eq!(s[0].sample_entities.len(), 5);
    assert_eq!(s[0].sample_entities[4].name, "t4");
    assert!(s[0].property_keys.is_empty());
}

#[test]
fn relation_summaries_get_their_patterns() {
    let summaries = vec![
        RelationTypeSummary { name: "has_role".into(), label: "Has role".into(), usage_count: 3, patterns: vec![] },
        RelationTypeSummary { name: "unused".into(), label: "Unused".into(), usage_count: 0, patterns: vec![] },
    ];
    let patterns = vec![
        ("has_role".to_string(), RelationPattern { source_type: "user".into(), target_type: "role".into(), count: 3 }),
    ];
    let r = relation_type_summaries(summaries, &patterns);
    assert_eq!(r[0].patterns.len(), 1);
    assert_eq!(r[0].patterns[0].source_type, "user");
    assert!(r[1].patterns.is_empty());
}

#[test]
fn graph_nodes_get_properties_once_per_id() {
    let rows = vec![
        (1, "tor".to_string(), "board".to_string(), "Board".to_string()),
        (2, "user".to_string(), "alice".to_string(), "Alice".to_string()),
        (1, "tor".to_string(), "board".to_string(), "Board".to_string()),
    ];
    let props = vec![
        (1, "status".to_string(), "active".to_string()),
        (2, "email".to_string(), "a@x".to_string()),
        (1, "x".to_string(), "y".to_string()),
    ];
    let nodes = graph_nodes(&rows, &props);
    assert_eq!(nodes[0].properties, vec![("status".to_string(), "active".to_string()), ("x".to_string(), "y".to_string())]);
    assert_eq!(nodes[1].properties, vec![("email".to_string(), "a@x".to_string())]);
    assert!(nodes[2].properties.is_empty());
}

#[test]
fn entity_list_query_filters_by_type() {
    let (sql, bind) = entity_list_query(Some("tor"));
    assert!(sql.contains("WHERE entity_type = $1"));
    assert_eq!(bind, Some("tor".to_string()));
    let (sql, bind) = entity_list_query(Some(""));
    assert!(!sql.contains("WHERE"));
    assert!(bind.is_none());
    assert!(entity_list_query(None).1.is_none());
}

#[test]
fn labels_are_sanitised_for_the_graph() {
    assert_eq!(sanitize_label("has role-x"), "has_role_x");
    assert_eq!(sanitize_label("tor_function"), "tor_function");
    assert_eq!(sanitize_label("Ärger"), "Ärger");
}

#[test]
fn cypher_statements() {
    let keys = vec!["a".to_string(), "b".to_string()];
    assert_eq!(
        entity_merge_cypher("tor function", &keys),
        "MERGE (n:tor_function {id: $id}) SET n.name = $name, n.label = $label, n.`a` = $prop_a, n.`b` = $prop_b"
    );
    assert_eq!(property_param("a"), "prop_a");
    assert_eq!(
        relation_merge_cypher("has role"),
        "MATCH (s {id: $src}), (t {id: $tgt}) MERGE (s)-[r:has_role]->(t)"
    );
    assert_eq!(
        relation_delete_cypher("member_of"),
        "MATCH (s {id: $src})-[r:member_of]->(t {id: $tgt}) DELETE r"
    );
}

#[test]
fn governance_rows_need_their_fields() {
    let n = governance_node(Some(1), Some("tor".into()), Some("board".into()), None).unwrap();
    assert_eq!((n.id, n.label.as_str()), (1, ""));
    assert!(governance_node(Some(1), Some("tor".into()), None, Some("B".into())).is_none());
    assert!(governance_edge(Some(1), Some(2), Some("x".into())).is_some());
    assert!(governance_edge(None, Some(2), Some("x".into())).is_none());
}

#[test]
fn capability_answers() {
    assert_eq!(capability_answer(false, Some(Some(true))), None);
    assert_eq!(capability_answer(true, None), Some(false));
    assert_eq!(capability_answer(true, Some(Some(true))), Some(true));
    assert_eq!(capability_answer(true, Some(None)), None);
}
