//! Helios: the request model, parsers and rules of a terminal API client.
use vstd::prelude::*;

pub mod assertions;
pub mod cli;
pub mod config;
pub mod crypto;
pub mod curl_parser;
pub mod dependency_chain;
pub mod export_import;
pub mod extraction;
pub mod file_storage;
pub mod diff;
pub mod har;
pub mod helios_format;
pub mod history;
pub mod json;
pub mod jsonpath;
pub mod history_diff;
pub mod http_client;
pub mod migrate;
pub mod models;
pub mod openapi;
pub mod outside;
pub mod report;
pub mod scenario;
pub mod scripting;
pub mod storage;
pub mod text;
pub mod tui;
pub mod utils;
pub mod vault;
