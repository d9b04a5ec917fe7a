//! Record extraction and pagination engine for a browser-rendered
//! trading-card catalog.
//!
//! The library parses one detail view — a label/value row table, a portrait
//! image reference and a two-line name cell, all as plain data — into a typed
//! record, and drives a pagination state machine that walks a
//! sequence of such views until a "no further sibling" sentinel or a
//! caller-supplied bound is reached. Locating views in a real browser and
//! persisting records are left to the calling program.

pub mod classify;
pub mod crawler;
pub mod parser;
pub mod record;
pub mod text;
