//! A small static-content blog library: it indexes a tree of post folders
//! (markdown body plus TOML metadata), renders each post to HTML, and serves
//! detail pages with previous/next navigation and a reverse-chronological
//! feed. The surrounding HTTP server lives outside this crate and hands it
//! plain values.

pub mod bootstrap_parser;
pub mod md;
pub mod metadata;
pub mod pages;
