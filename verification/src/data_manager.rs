//! Import and export payloads of the data manager.
//!
//! Entities and relations are referred to by `"type:name"` strings.
//! Property maps are property lists (see `props`).
use vstd::prelude::*;
use crate::props::{props_map, distinct_keys, copy_props};
use crate::text::{chars_of, text_of};

verus! {

/// How to handle an entity whose type and name already exist.
#[derive(Clone, Copy, Debug, PartialEq, Eq, Structural)]
pub enum ConflictMode {
    Skip,
    Upsert,
    Fail,
}

impl Default for ConflictMode {
    fn default() -> (r: Self)
        ensures
            r == ConflictMode::Skip,
    {
        ConflictMode::Skip
    }
}

/// An entity to import.
#[derive(Clone, Debug)]
pub struct EntityImport {
    pub entity_type: String,
    pub name: String,
    pub label: String,
    pub sort_order: i64,
    pub properties: Vec<(String, String)>,
}

/// A relation to import; `source` and `target` are `"type:name"` references.
#[derive(Clone, Debug)]
pub struct RelationImport {
    pub relation_type: String,
    pub source: String,
    pub target: String,
    pub properties: Vec<(String, String)>,
}

/// A complete import request.
#[derive(Clone, Debug)]
pub struct ImportPayload {
    pub conflict_mode: ConflictMode,
    pub entities: Vec<EntityImport>,
    pub relations: Vec<RelationImport>,
}

/// An exported entity with its properties.
#[derive(Clone, Debug)]
pub struct EntityExport {
    pub id: i64,
    pub entity_type: String,
    pub name: String,
    pub label: String,
    pub sort_order: i64,
    pub properties: Vec<(String, String)>,
}

/// An exported relation; all references are `"type:name"` strings.
#[derive(Clone, Debug)]
pub struct RelationExport {
    pub id: i64,
    pub relation_type: String,
    pub source: String,
    pub target: String,
    pub properties: Vec<(String, String)>,
}

/// The exported entity graph.
#[derive(Clone, Debug)]
pub struct ExportPayload {
    pub entities: Vec<EntityExport>,
    pub relations: Vec<RelationExport>,
}

/// The item of an import that an error belongs to.
#[derive(Clone, Debug)]
pub enum ImportItem {
    Entity(EntityImport),
    Relation(RelationImport),
}

/// The mathematical content of an `ImportItem`.
pub enum ImportItemView {
    Entity(EntityImportView),
    Relation(RelationImportView),
}

/// One failed item of an import, with the reason.
#[derive(Clone, Debug)]
pub struct ImportError {
    pub item: ImportItem,
    pub reason: String,
}

/// Outcome counters of an import.
#[derive(Clone, Debug)]
pub struct ImportResult {
    pub created: usize,
    pub updated: usize,
    pub skipped: usize,
    pub errors: Vec<ImportError>,
}

/// The mathematical content of an `EntityImport`.
pub struct EntityImportView {
    pub entity_type: Seq<char>,
    pub name: Seq<char>,
    pub label: Seq<char>,
    pub sort_order: i64,
    pub properties: Map<Seq<char>, Seq<char>>,
}

/// The mathematical content of a `RelationImport`.
pub struct RelationImportView {
    pub relation_type: Seq<char>,
    pub source: Seq<char>,
    pub target: Seq<char>,
    pub properties: Map<Seq<char>, Seq<char>>,
}

/// The mathematical content of an `ImportPayload`.
pub struct ImportPayloadView {
    pub conflict_mode: ConflictMode,
    pub entities: Seq<EntityImportView>,
    pub relations: Seq<RelationImportView>,
}

impl View for EntityImport {
    type V = EntityImportView;

    open spec fn view(&self) -> EntityImportView {
        EntityImportView {
            entity_type: self.entity_type@,
            name: self.name@,
            label: self.label@,
            sort_order: self.sort_order,
            properties: props_map(self.properties@),
        }
    }
}

impl View for RelationImport {
    type V = RelationImportView;

    open spec fn view(&self) -> RelationImportView {
        RelationImportView {
            relation_type: self.relation_type@,
            source: self.source@,
            target: self.target@,
            properties: props_map(self.properties@),
        }
    }
}

/// The views of a sequence of entities.
pub open spec fn entity_views(s: Seq<EntityImport>) -> Seq<EntityImportView> {
    s.map_values(|e: EntityImport| e@)
}

/// The views of a sequence of relations.
pub open spec fn relation_views(s: Seq<RelationImport>) -> Seq<RelationImportView> {
    s.map_values(|r: RelationImport| r@)
}

impl View for ImportPayload {
    type V = ImportPayloadView;

    open spec fn view(&self) -> ImportPayloadView {
        ImportPayloadView {
            conflict_mode: self.conflict_mode,
            entities: entity_views(self.entities@),
            relations: relation_views(self.relations@),
        }
    }
}

/// Every property list of the payload is free of repeated keys.
pub open spec fn payload_wf(p: ImportPayload) -> bool {
    &&& forall|i: int|
        0 <= i < p.entities@.len() ==> distinct_keys(#[trigger] p.entities@[i].properties@)
    &&& forall|i: int|
        0 <= i < p.relations@.len() ==> distinct_keys(#[trigger] p.relations@[i].properties@)
}

impl View for ImportItem {
    type V = ImportItemView;

    open spec fn view(&self) -> ImportItemView {
        match self {
            ImportItem::Entity(e) => ImportItemView::Entity(e@),
            ImportItem::Relation(r) => ImportItemView::Relation(r@),
        }
    }
}

/// A copy of an entity to import.
pub fn copy_entity(e: &EntityImport) -> (r: EntityImport)
    ensures
        r@ == e@,
{
    EntityImport {
        entity_type: text_of(chars_of(e.entity_type.as_str()).as_slice()),
        name: text_of(chars_of(e.name.as_str()).as_slice()),
        label: text_of(chars_of(e.label.as_str()).as_slice()),
        sort_order: e.sort_order,
        properties: copy_props(&e.properties),
    }
}

/// A copy of a relation to import.
pub fn copy_relation(r: &RelationImport) -> (c: RelationImport)
    ensures
        c@ == r@,
{
    RelationImport {
        relation_type: text_of(chars_of(r.relation_type.as_str()).as_slice()),
        source: text_of(chars_of(r.source.as_str()).as_slice()),
        target: text_of(chars_of(r.target.as_str()).as_slice()),
        properties: copy_props(&r.properties),
    }
}

} // verus!
