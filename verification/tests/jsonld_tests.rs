use ahlt::data_manager::{EntityExport, ExportPayload, RelationExport};
use ahlt::jsonld::{entity_type_to_class, iri_to_type_name, ref_to_iri, strip_ahlt_prefix};
use ahlt::sql_export::escape_sql;
use ahlt::jsonld_export::{build_context, entity_node, export_jsonld, NodeValue};

#[test]
fn test_entity_type_to_class() {
    assert_eq!(entity_type_to_class("tor"), "Tor");
    assert_eq!(entity_type_to_class("tor_function"), "TorFunction");
    assert_eq!(entity_type_to_class("workflow_status"), "WorkflowStatus");
    assert_eq!(entity_type_to_class("user"), "User");
}

#[test]
fn test_iri_to_type_name() {
    let (t, n) = iri_to_type_name("ahlt:tor/budget_committee").unwrap();
    assert_eq!(t, "tor");
    assert_eq!(n, "budget_committee");

    let (t, n) = iri_to_type_name("ahlt:user/alice").unwrap();
    assert_eq!(t, "user");
    assert_eq!(n, "alice");

    assert!(iri_to_type_name("invalid:thing").is_err());
}

#[test]
fn test_strip_ahlt_prefix() {
    assert_eq!(strip_ahlt_prefix("ahlt:status"), "status");
    assert_eq!(strip_ahlt_prefix("plain_key"), "plain_key");
}

#[test]
fn iri_full_namespace_and_missing_separator() {
    let (t, n) = iri_to_type_name("http://ahlt.local/ontology/role/admin").unwrap();
    assert_eq!((t.as_str(), n.as_str()), ("role", "admin"));
    assert_eq!(
        iri_to_type_name("ahlt:noslash").unwrap_err(),
        "IRI missing type/name separator: ahlt:noslash"
    );
    assert_eq!(
        iri_to_type_name("invalid:thing").unwrap_err(),
        "IRI does not start with ahlt: or full namespace: invalid:thing"
    );
}

#[test]
fn reference_to_iri_and_back() {
    assert_eq!(ref_to_iri("tor:budget"), "ahlt:tor/budget");
    assert_eq!(ref_to_iri("nocolon"), "ahlt:unknown/nocolon");
    let iri = ref_to_iri("tor_function:chair");
    let (t, n) = iri_to_type_name(&iri).unwrap();
    assert_eq!((t.as_str(), n.as_str()), ("tor_function", "chair"));
}

fn entity(t: &str, n: &str, label: &str, sort: i64, props: Vec<(&str, &str)>) -> EntityExport {
    EntityExport {
        id: 1,
        entity_type: t.to_string(),
        name: n.to_string(),
        label: label.to_string(),
        sort_order: sort,
        properties: props.into_iter().map(|(k, v)| (k.to_string(), v.to_string())).collect(),
    }
}

fn relation(rt: &str, s: &str, t: &str) -> RelationExport {
    RelationExport {
        id: 1,
        relation_type: rt.to_string(),
        source: s.to_string(),
        target: t.to_string(),
        properties: vec![],
    }
}

fn text_of(v: &NodeValue) -> String {
    match v {
        NodeValue::Text(s) => s.clone(),
        _ => panic!("not a text"),
    }
}

#[test]
fn node_of_an_entity_has_id_type_label_properties_and_links() {
    let e = entity("tor_function", "chair", "Chair", 0, vec![("mandatory", "true")]);
    let rels = vec![
        relation("belongs_to_tor", "tor_function:chair", "tor:board"),
        relation("reports_to", "tor_function:chair", "tor_function:ceo"),
        relation("belongs_to_tor", "tor_function:chair", "tor:audit"),
        relation("belongs_to_tor", "tor:other", "tor:board"),
    ];
    let node = entity_node(&e, &rels);
    let m = &node.members;
    assert_eq!(m[0].0, "@id");
    assert_eq!(text_of(&m[0].1), "ahlt:tor_function/chair");
    assert_eq!(m[1].0, "@type");
    assert_eq!(text_of(&m[1].1), "ahlt:TorFunction");
    assert_eq!(m[2].0, "ahlt:label");
    assert_eq!(text_of(&m[2].1), "Chair");
    // sort order 0 is left out
    assert_eq!(m[3].0, "ahlt:mandatory");
    assert_eq!(text_of(&m[3].1), "true");
    assert_eq!(m[4].0, "ahlt:belongs_to_tor");
    match &m[4].1 {
        NodeValue::Links(ts) => assert_eq!(ts, &vec!["ahlt:tor/board".to_string(), "ahlt:tor/audit".to_string()]),
        _ => panic!("expected an array of links"),
    }
    assert_eq!(m[5].0, "ahlt:reports_to");
    match &m[5].1 {
        NodeValue::Link(t) => assert_eq!(t, "ahlt:tor_function/ceo"),
        _ => panic!("expected one link"),
    }
    assert_eq!(m.len(), 6);
}

#[test]
fn node_keeps_a_nonzero_sort_order() {
    let e = entity("role", "admin", "Admin", 3, vec![]);
    let node = entity_node(&e, &vec![]);
    assert_eq!(node.members.len(), 4);
    assert_eq!(node.members[3].0, "ahlt:sort_order");
    match node.members[3].1 {
        NodeValue::Integer(n) => assert_eq!(n, 3),
        _ => panic!("expected an integer"),
    }
}

#[test]
fn context_names_keys_and_relation_types_once() {
    let keys = vec!["status".to_string(), "description".to_string()];
    let rels = vec!["has_role".to_string(), "status".to_string()];
    let ctx = build_context(&keys, &rels);
    let pairs: Vec<(&str, &str)> = ctx.iter().map(|(k, v)| (k.as_str(), v.as_str())).collect();
    assert_eq!(
        pairs,
        vec![
            ("ahlt", "http://ahlt.local/ontology/"),
            ("rdf", "http://www.w3.org/1999/02/22-rdf-syntax-ns#"),
            ("status", "ahlt:status"),
            ("description", "ahlt:description"),
            ("has_role", "ahlt:has_role"),
        ]
    );
}

#[test]
fn export_document_has_one_node_per_entity() {
    let payload = ExportPayload {
        entities: vec![entity("tor", "board", "Board", 0, vec![]), entity("user", "alice", "Alice", 0, vec![])],
        relations: vec![relation("member_of", "user:alice", "tor:board")],
    };
    let doc = export_jsonld(&payload, &vec![], &vec!["member_of".to_string()]);
    assert_eq!(doc.graph.len(), 2);
    assert_eq!(doc.context.len(), 3);
    assert_eq!(doc.graph[0].members.len(), 3);
    assert_eq!(doc.graph[1].members.len(), 4);
    assert_eq!(doc.graph[1].members[3].0, "ahlt:member_of");
}

#[test]
fn iris_read_as_references_give_the_iri_back() {
    for iri in ["ahlt:tor/budget_committee", "ahlt:user/alice", "ahlt:doc/a/b"] {
        let (t, n) = iri_to_type_name(iri).unwrap();
        assert_eq!(ref_to_iri(&format!("{}:{}", t, n)), iri);
    }
    let (t, n) = iri_to_type_name("http://ahlt.local/ontology/tor/x").unwrap();
    assert_eq!(ref_to_iri(&format!("{}:{}", t, n)), "ahlt:tor/x");
    assert_eq!(ref_to_iri("plain"), "ahlt:unknown/plain");
}

#[test]
fn sql_escaping_doubles_quotes() {
    let s = "it's 'quoted'";
    let e = escape_sql(s);
    assert_eq!(e, "it''s ''quoted''");
    assert_eq!(e.matches('\'').count(), 2 * s.matches('\'').count());
    assert_eq!(e.replace('\'', ""), s.replace('\'', ""));
    assert_eq!(e.replace("''", "'"), s);
}
