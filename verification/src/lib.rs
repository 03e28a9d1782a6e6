//! The store of sessions, runs and agents, on SQLite. See `engine` for how its operations are stated.
pub mod agents;
pub mod anchors;
pub mod artifacts;
pub mod blocks;
pub mod cards;
pub mod chain;
pub mod changes;
pub mod clock;
pub mod contracts;
pub mod documents;
pub mod engine;
pub mod events;
pub mod harness;
pub mod index;
pub mod json;
pub mod lead;
pub mod ledger;
pub mod lifecycle;
pub mod made;
pub mod memory;
pub mod messages;
pub mod migration;
pub mod news;
pub mod records;
pub mod remote;
pub mod rows;
pub mod runs;
pub mod runtime;
pub mod schema;
pub mod selection;
pub mod sessions;
pub mod settings;
pub mod settled;
pub mod settlement;
pub mod shape;
pub mod sources;
pub mod sqlite;
pub mod text;
pub mod trace;
pub mod tx;
pub mod upkeep;
