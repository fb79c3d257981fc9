//! The logic of satz studio's views: what each of them shows, derived from the estate's
//! reports and the agent's events, stated and proved.

pub mod text;
pub mod json;
pub mod summary;
pub mod chat;
pub mod replay;
pub mod reports;
pub mod interview;
pub mod packs;
pub mod model;
pub mod overview;
pub mod commands;
pub mod resources;
pub mod context;
pub mod chat_view;
pub mod estate;
pub mod export;
pub mod import;
pub mod interfaces;
pub mod agent;
pub mod actions;
pub mod settings;
