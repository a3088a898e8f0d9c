//! A resume tailored to a job posting: the repositories of a GitHub profile
//! are weighed and ranked, a language model drafts the content, and the
//! result is set as LaTeX.
//!
//! This crate holds every decision of that pipeline, each with its contract:
//! what a function returns is stated over sequences of characters and the
//! models of the types, and proved. Fetching pages, reading files, talking
//! to the user and typesetting are left to the caller.

pub mod agent;
pub mod cache;
pub mod cli;
pub mod config;
pub mod github;
pub mod job;
pub mod json;
pub mod latex;
pub mod number;
pub mod select;
pub mod text;
