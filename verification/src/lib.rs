//! Verified decision logic of an AI coding assistant's modules: the entity database tool,
//! the search indexer and its status overlay, the chat tool, prompt history, panel
//! navigation and the tool queue. Every function states its result in its contract;
//! reading and writing files, databases and the network is left to the caller.

pub mod text;
pub mod tool;
pub mod context;
pub mod schema;

pub mod sql;
pub mod sql_tools;
pub mod entity_sql;
pub mod entities;
pub mod entity_blocks;
pub mod migrations;

pub mod search_config;
pub mod search;
pub mod indexer;
pub mod overlay;
pub mod overlay_data;
pub mod overlay_columns;

pub mod chat;
pub mod download;
pub mod model;
pub mod api_schema;
pub mod history;
pub mod navigation;
pub mod queue;
pub mod library;
pub mod tools_overview;
pub mod sidebar;
