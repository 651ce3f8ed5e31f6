//! herdr-reviewr — the review sidebar's decision logic: editor commands, selections, the
//! forge snapshot model, agent resolution, comment formatting and persistence records, and
//! the refresh coordination that decides when a fetched snapshot may paint.

pub mod text;
pub mod editor;
pub mod comments;
pub mod diff;
pub mod file_list;
pub mod json;
pub mod model;
pub mod git;
pub mod forge;
pub mod forge_core;
pub mod issue;
pub mod selection;
pub mod herdr;
pub mod placement;
pub mod pane_action;
pub mod pane_flow;
pub mod sidebar;
pub mod export;
pub mod image_view;
pub mod copy;
pub mod browser;
pub mod theme;
pub mod nav;
pub mod refresh;
pub mod cli;
pub mod search;
pub mod repo_actions;
pub mod proc;
pub mod editorconfig;
