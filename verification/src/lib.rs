//! RSS feeds for web pages that have none.
//!
//! A configuration says which elements of a page are the items of a feed and where
//! their headings, links, summaries, dates and media files are found. This library
//! holds everything that is decided and computed on the way from a page to a feed. The
//! program around it reads files, sends requests, runs commands and writes what comes
//! of it.
//!
//! - `config` is the configuration, `dirs` and `paths` say where files are.
//! - `fetch` decides from where and how a page is fetched, and what an answer means.
//! - `html` and `links` give access to a page and its links; `dates` and `formats` read
//!   and write dates.
//! - `item` makes one item of an element of a page, and `feed` a feed of all of them.
//!   `json` does both for JSON documents.
//! - `run` plans what a run of the program does.
//!
//! Parsing HTML, CSS selectors, URLs and dates is left to other crates. What they
//! return is named by a spec function without a body, and the contracts here are exact
//! over those names.
pub mod config;
pub mod dates;
pub mod dirs;
pub mod errors;
pub mod feed;
pub mod fetch;
pub mod formats;
pub mod html;
pub mod item;
pub mod json;
pub mod links;
pub mod paths;
pub mod run;
pub mod text;
pub mod version;
