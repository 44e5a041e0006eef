//! Crawling a music catalog: artist enumeration with deduplication, song
//! listings, media-URL resolution and the bookkeeping of batch downloads.
pub mod audio_converter;
pub mod bindings;
pub mod catalog;
pub mod crawl;
pub mod download;
pub mod extract;
pub mod metadata_editor;
pub mod model;
pub mod order;
pub mod search;
pub mod settings;
pub mod text;
pub mod theme;

pub use catalog::{Artist, SearchResults, Song};
pub use model::Screen;
pub use theme::ThemeMode;
