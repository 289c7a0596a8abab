//! A local Markdown previewer's rendering core: path resolution, image
//! embedding as data URLs, link rewriting and the document pipeline.

pub mod path;
pub mod path_laws;
pub mod embed;
pub mod link;
pub mod render;
pub mod watch;
