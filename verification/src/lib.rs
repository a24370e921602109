//! The logic of a backend for a document outline editor: documents made of
//! hierarchical nodes with rich content, kept in a store; the validation of
//! image uploads; and the configuration of the server around them.

pub mod cascade;
pub mod config;
pub mod contents;
pub mod documents;
pub mod error;
pub mod export;
pub mod filename;
pub mod laws;
pub mod models;
pub mod nodes;
pub mod origins;
pub mod signature;
pub mod sorting;
pub mod store;
pub mod text;
pub mod upload;
