//! Aggregation and resolution engine for game-ownership queries across
//! multiple catalogue accounts: a retrying query layer that classifies
//! upstream responses and decodes their JSON envelopes, an identity
//! resolver that maps free-text names to numeric account ids, and a
//! set-algebra layer that computes intersections, differences and
//! category-filtered subsets over per-account game libraries.

pub mod client;
pub mod matcher;
pub mod models;
pub mod render;
pub mod resolver;
pub mod service;
pub mod string_parser;
pub mod text;
