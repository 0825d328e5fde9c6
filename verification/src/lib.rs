//! A static site generator's content pipeline: markdown documents are scanned
//! into a site-wide index, their links rewritten, their headings collected and
//! their code highlighted, and cross-document relations (backlinks, tags)
//! resolved once every document has been seen.

pub mod config;
pub mod dates;
pub mod errors;
pub mod feed;
pub mod frontmatter;
pub mod index;
pub mod laws;
pub mod link;
pub mod markdown;
pub mod md_file;
pub mod orchestrator;
pub mod parser;
pub mod path;
pub mod scan;
pub mod site;
pub mod slug;
pub mod table;
pub mod templates;
pub mod text;
pub mod util;
pub mod watch;
