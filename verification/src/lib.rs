//! Wiki generation from source repositories: an intermediate representation of
//! code, the text scanners that fill it, and the renderers that turn it into pages.

pub mod baidu;
pub mod cache;
pub mod cloud;
pub mod config;
pub mod diagram;
pub mod discovery;
pub mod endpoint;
pub mod error;
pub mod graph;
pub mod evidence;
pub mod export;
pub mod generator;
pub mod hashing;
pub mod ir;
pub mod json;
pub mod lang;
pub mod llm_gen;
pub mod manifest;
pub mod object_store;
pub mod page_builder;
pub mod parser;
pub mod paths;
pub mod sftp;
pub mod storage;
pub mod text;
pub mod webdav;
pub mod wiki_index;
