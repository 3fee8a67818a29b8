//! The logic of a desktop front end for a coding agent.
//!
//! Every module states what its functions compute over mathematical views of
//! their arguments; nothing here performs input or output.
pub mod attachments;
pub mod case;
pub mod controller;
pub mod desktop_laws;
pub mod file_tree;
pub mod formatting;
pub mod git;
pub mod git_flow;
pub mod git_laws;
pub mod handed_files;
pub mod history;
pub mod ids;
pub mod inspector;
pub mod items;
pub mod json;
pub mod json_text;
pub mod labels;
pub mod launcher;
pub mod laws;
pub mod markdown;
pub mod markdown_blocks;
pub mod markdown_laws;
pub mod markdown_lines;
pub mod model;
pub mod order;
pub mod path;
pub mod persistence;
pub mod preflight;
pub mod prompt;
pub mod protocol;
pub mod remap;
pub mod repository;
pub mod row_updates;
pub mod screen_laws;
pub mod services;
pub mod session;
pub mod settings;
pub mod sidebar;
pub mod state;
pub mod snapshot;
pub mod steps;
pub mod store_laws;
pub mod store_path;
pub mod sync;
pub mod table;
pub mod text;
pub mod tree_laws;
pub mod update;
pub mod view_models;
pub mod window_chrome;
pub mod wire_laws;
pub mod workspace;
pub mod workspace_view;
