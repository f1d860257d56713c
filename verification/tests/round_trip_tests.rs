use ahlt::data_manager::{ConflictMode, EntityExport, ExportPayload, RelationExport};
use ahlt::json::{Json, JsonNumber};
use ahlt::jsonld::parse_jsonld;
use ahlt::jsonld_export::{export_jsonld, JsonLdDocument, NodeValue};
use serde_json::Value;

fn to_json(v: &Value) -> Json {
    match v {
        Value::Null => Json::Null,
        Value::Bool(b) => Json::Bool(*b),
        Value::Number(n) => Json::Number(JsonNumber { text: n.to_string(), integer: n.as_i64() }),
        Value::String(s) => Json::Str(s.clone()),
        Value::Array(items) => Json::Array(items.iter().map(to_json).collect(), v.to_string()),
        Value::Object(m) => Json::Object(m.iter().map(|(k, x)| (k.clone(), to_json(x))).collect(), v.to_string()),
    }
}

fn link(iri: &str) -> Value {
    let mut m = serde_json::Map::new();
    m.insert("@id".to_string(), Value::from(iri));
    Value::Object(m)
}

fn document_value(doc: &JsonLdDocument) -> Value {
    let mut context = serde_json::Map::new();
    for (k, v) in &doc.context {
        context.insert(k.clone(), Value::from(v.clone()));
    }
    let graph: Vec<Value> = doc
        .graph
        .iter()
        .map(|node| {
            let mut m = serde_json::Map::new();
            for (k, v) in &node.members {
                let value = match v {
                    NodeValue::Text(s) => Value::from(s.clone()),
                    NodeValue::Integer(n) => Value::from(*n),
                    NodeValue::Link(iri) => link(iri),
                    NodeValue::Links(iris) => Value::Array(iris.iter().map(|i| link(i)).collect()),
                };
                m.insert(k.clone(), value);
            }
            Value::Object(m)
        })
        .collect();
    let mut top = serde_json::Map::new();
    top.insert("@context".to_string(), Value::Object(context));
    top.insert("@graph".to_string(), Value::Array(graph));
    Value::Object(top)
}

fn entity(t: &str, n: &str, label: &str, sort: i64, props: Vec<(&str, &str)>) -> EntityExport {
    EntityExport {
        id: 0,
        entity_type: t.into(),
        name: n.into(),
        label: label.into(),
        sort_order: sort,
        properties: props.into_iter().map(|(k, v)| (k.to_string(), v.to_string())).collect(),
    }
}

fn relation(rt: &str, s: &str, t: &str) -> RelationExport {
    RelationExport { id: 0, relation_type: rt.into(), source: s.into(), target: t.into(), properties: vec![] }
}

#[test]
fn exported_document_reads_back() {
    let payload = ExportPayload {
        entities: vec![
            entity("tor", "board", "Board", 2, vec![("status", "active"), ("quorum", "3")]),
            entity("user", "alice", "Alice", 0, vec![]),
            entity("tor_function", "chair", "Chair", 0, vec![]),
        ],
        relations: vec![
            relation("member_of", "user:alice", "tor:board"),
            relation("fills_position", "user:alice", "tor_function:chair"),
            relation("belongs_to_tor", "tor_function:chair", "tor:board"),
        ],
    };
    let doc = export_jsonld(&payload, &vec!["status".into(), "quorum".into()], &vec![]);
    let value = document_value(&doc);
    let back = parse_jsonld(&to_json(&value)).unwrap();
    assert!(back.conflict_mode == ConflictMode::Skip);
    assert_eq!(back.entities.len(), 3);
    let board = &back.entities[0];
    assert_eq!((board.entity_type.as_str(), board.name.as_str(), board.label.as_str(), board.sort_order), ("tor", "board", "Board", 2));
    let mut props = board.properties.clone();
    props.sort();
    assert_eq!(props, vec![("quorum".to_string(), "3".to_string()), ("status".to_string(), "active".to_string())]);
    assert_eq!(back.entities[1].sort_order, 0);
    assert_eq!(back.entities[2].label, "Chair");
    let mut rels: Vec<(String, String, String)> = back
        .relations
        .iter()
        .map(|r| (r.relation_type.clone(), r.source.clone(), r.target.clone()))
        .collect();
    rels.sort();
    let mut expected: Vec<(String, String, String)> = payload
        .relations
        .iter()
        .map(|r| (r.relation_type.clone(), r.source.clone(), r.target.clone()))
        .collect();
    expected.sort();
    assert_eq!(rels, expected);
}

#[test]
fn several_links_of_one_type_read_back() {
    let payload = ExportPayload {
        entities: vec![entity("user", "bob", "Bob", 0, vec![])],
        relations: vec![
            relation("has_role", "user:bob", "role:admin"),
            relation("has_role", "user:bob", "role:editor"),
        ],
    };
    let doc = export_jsonld(&payload, &vec![], &vec!["has_role".into()]);
    let back = parse_jsonld(&to_json(&document_value(&doc))).unwrap();
    let targets: Vec<&str> = back.relations.iter().map(|r| r.target.as_str()).collect();
    assert_eq!(targets, vec!["role:admin", "role:editor"]);
}
