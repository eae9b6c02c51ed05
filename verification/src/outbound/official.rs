//! The official web service of the machines' vendor.
pub mod catalog;
pub mod client;
pub mod error;
pub mod forms;
pub mod html;
pub mod scraper;
pub mod stock;
pub mod upstream;
