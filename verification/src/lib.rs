pub mod text;
pub mod upload;
pub mod timefmt;
pub mod models;
pub mod pagination;
pub mod dashboard;
pub mod kb_tree;
pub mod kb_move;
pub mod docs_html;
pub mod markdown;
pub mod forms;
pub mod feed;
pub mod auth;
pub mod export;
pub mod archive;
pub mod account;
pub mod admin_forms;
pub mod images;
pub mod errors;
pub mod flash;
pub mod views;
pub mod docs_pages;
pub mod spark_forms;
pub mod related;
pub mod public_pages;
pub mod pickers;
pub mod md_events;
pub mod md_tags;
pub mod md_ends;
pub mod md_render;
pub mod config;
