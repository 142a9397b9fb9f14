//! Enriches a roster of companies with staff contacts found on their websites.
//!
//! The crate holds the decisions of the crawl: which links of a page lead to
//! personnel pages, which anchors carry an e-mail address, which text around
//! an anchor is handed to a language model, how the model's reply is read, and
//! in which order pages are visited. Fetching pages and talking to the model
//! are left to the caller, who drives [`crawl::Crawl`] with the results.
//!
//! Pages are parsed with `scraper`, and addresses and tags are searched with
//! `regex`; what these crates compute is taken on trust and goes by name in
//! the contracts. Everything else is proved.

pub mod company;
pub mod contact;
pub mod content;
pub mod context;
pub mod crawl;
pub mod dom;
pub mod links;
pub mod locator;
pub mod pattern;
pub mod prompt;
pub mod reply;
pub mod roster;
pub mod search;
pub mod text;
