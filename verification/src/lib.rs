//! Tool catalogue, request planning and response shaping for a GitLab MCP server.

pub mod account;
pub mod args;
pub mod config;
pub mod diff;
pub mod encode;
pub mod error;
pub mod exec;
pub mod files;
pub mod flow;
pub mod gitlab;
pub mod graphql;
pub mod http;
pub mod interop;
pub mod issues;
pub mod jobs;
pub mod json;
pub mod laws;
pub mod lists;
pub mod number;
pub mod patch;
pub mod pattern;
pub mod registry;
pub mod rest;
pub mod route;
pub mod search;
pub mod server;
pub mod shape;
pub mod strmap;
pub mod strset;
pub mod text;
pub mod unicode;
pub mod variables;
pub mod watch;
pub mod webhook;
