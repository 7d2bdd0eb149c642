//! Verified core of a command-line client for the GitLab REST and GraphQL APIs:
//! request URLs, request bodies, argument parsing, and the decisions taken
//! between the HTTP calls that the surrounding program performs.

pub mod text;
pub mod url;
pub mod json;
pub mod vars;
pub mod error;
pub mod model;
pub mod bodies;
pub mod pipeline;
pub mod requests;
pub mod flow;
pub mod client;
pub mod packages;
pub mod cli;
pub mod archive;
