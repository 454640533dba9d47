//! Ingestion and retrieval core of a logistics back office: locale-aware
//! parsing of semicolon-delimited exports into typed records, and the
//! ranking and prompt assembly of a small retrieval layer.

pub mod api;
pub mod base;
pub mod calendar;
pub mod chat;
pub mod company;
pub mod db;
pub mod documents;
pub mod embeddings;
pub mod fiscal;
pub mod freight;
pub mod freight_importer;
pub mod importers;
pub mod llm;
pub mod locale;
pub mod rag;
pub mod route;
pub mod route_importer;
pub mod tabular;
pub mod text;
pub mod timesheet;
pub mod validation;
pub mod timesheet_importer;
