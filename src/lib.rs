pub mod download;
pub mod entries;
pub mod error;
pub mod headers;
pub mod item;
pub mod render;
pub mod request;
pub mod request_items;
pub mod status;
pub mod url;
