//! Converts a set of Architecture Decision Records, written in a lightweight
//! markup language, into standalone HTML fragments plus a navigable index.
//!
//! The pipeline parses each document's markup into a typed node tree,
//! extracts inline `status:` / `date:` declarations from the raw text,
//! renders the tree into an HTML fragment, builds a sorted navigation index
//! over all documents, and substitutes both fragments into a page template.

use vstd::prelude::*;

pub mod compose;
pub mod extract;
pub mod files;
pub mod generator;
pub mod node;
pub mod parse;
pub mod render;
pub mod text;

pub use compose::substitute_template;
pub use extract::{extract_date_from_adr_content, extract_status_from_adr_content};
pub use files::File;
pub use generator::{generate_list_adrs, parse_files, process_files, ParsedFile};
pub use node::Node;
pub use parse::generate_adr_html;
pub use render::process_node;
