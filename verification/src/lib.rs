//! Media link extraction, filtering and storage-naming logic.
pub mod text;
pub mod models;
pub mod config;
pub mod download;
pub mod paths;
pub mod rules;
pub mod dimensions;
pub mod order;
pub mod grouping;
pub mod filter;
pub mod media_utils;
pub mod storage;
pub mod video;
pub mod hls;
pub mod routing;
pub mod json;
pub mod weburl;
pub mod labels;
pub mod page;
pub mod instagram;
pub mod instagram_pages;
pub mod reddit;
pub mod patterns;
pub mod links;
pub mod scrape;
pub mod sniff;
pub mod records;
pub mod backup;
pub mod tagging;
pub mod ingestion;
pub mod inject;
pub mod processing;
