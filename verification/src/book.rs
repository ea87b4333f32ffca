//! The parts of an mdBook chapter that the renderers read, and the
//! renderers the preprocessor serves.

use vstd::prelude::*;

verus! {

/// A chapter of the book, as plain values: its name, Markdown source, section
/// number (`1.2.` is `[1, 2]`) and its path relative to the book's source
/// directory.
pub struct ChapterInfo {
    pub name: String,
    pub content: String,
    pub number: Option<Vec<u32>>,
    pub source_path: Option<String>,
    /// The chapter's path in the book (for README chapters, `index.md`).
    pub path: Option<String>,
}

/// The renderers the preprocessor runs for: the PDF and DOCX backends, by
/// their names in `book.toml` or their commands.
pub open spec fn supported_renderer(name: Seq<char>) -> bool {
    name == "pdf"@ || name == "docx"@ || name == "render-pdf"@ || name == "render-docx"@
}

/// Whether the preprocessor runs for `renderer` (see `supported_renderer`).
pub fn supports_renderer(renderer: &str) -> (b: bool)
    ensures
        b == supported_renderer(renderer@),
{
    let r = crate::text::to_string(renderer);
    r == crate::text::to_string("pdf") || r == crate::text::to_string("docx")
        || r == crate::text::to_string("render-pdf") || r == crate::text::to_string("render-docx")
}

} // verus!
