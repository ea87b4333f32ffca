//! Verified core of an mdBook renderer that turns a book into Typst (for PDF),
//! DOCX and EPUB output: heading numbering, link and path rewriting, text
//! escaping, Markdown-to-Typst rendering and the layout decisions of the
//! DOCX writer.

pub mod text;
pub mod book;
pub mod heading_number;
pub mod paths;
pub mod markdown;
pub mod typst;
pub mod typst_render;
pub mod epub;
pub mod image;
pub mod docx_style;
pub mod docx_model;
pub mod docx_parts;
pub mod docx_registry;
pub mod highlight;
pub mod docx_code;
pub mod docx_table;
pub mod docx_body;
pub mod docx_document;
pub mod docx_numbering;
pub mod template_styles;
pub mod template_rewrite;
pub mod template_default;
