//! Finds PlantUML code blocks in Markdown, derives cache keys for their images, and
//! splices the rendered output back into the document.
pub mod text;
pub mod fence;
pub mod info;
pub mod markdown_iterator;
pub mod include_iterator;
pub mod image_name;
pub mod cache_cleaner;
pub mod pipeline;
pub mod base64;
pub mod config;
pub mod backend;
pub mod renderer;
pub mod preprocessor;
