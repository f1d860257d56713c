//! Verified core of the governance workspace: text handling, JSON-LD and
//! SQL interchange, navigation, imports, minutes and other record logic.
pub mod text;
pub mod props;
pub mod json;
pub mod data_manager;
pub mod jsonld;
pub mod jsonld_export;
pub mod jsonld_round_trip;
pub mod jsonld_member_order;
pub mod jsonld_relations;
pub mod sql_export;
pub mod export_rows;
pub mod navigation;
pub mod import;
pub mod json_text;
pub mod meetings;
pub mod users;
pub mod audit;
pub mod dashboard;
pub mod ontology;
pub mod graph_sync;
pub mod records;
pub mod admin;
pub mod workflow;
pub mod warnings;
