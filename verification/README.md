# mdbook-renderkit

An mdBook preprocessor and PDF and DOCX backends, with the rendering
logic verified in Verus.

- `src/` is the verified library. It turns a book's chapters into Typst
  markup (`typst`, `typst_render`), into the blocks of a Word document
  (`docx_*`), and into EPUB pages (`epub`, library only: no command
  runs an EPUB backend); it numbers headings
  (`heading_number`), rewrites links and paths (`paths`), reads image sizes
  (`image`), and plans the DOCX templates (`template_*`). Markdown is parsed
  by `pulldown-cmark` and code is highlighted by `syntect` behind small
  wrappers whose contracts are trusted.
- `tests/` runs the library on concrete books, chapters and paths.
- `app/` is the `mdbook-renderkit` program: the command line, the mdBook
  JSON on stdin, reading and writing files, Typst compilation, and turning
  the library's document model into `ooxmlsdk` calls. `app/epub.rs`
  holds the `epub-builder` side of the EPUB pages, which no command
  reaches.

Settings (`book.toml`):

```toml
[preprocessor.renderkit]
command = "mdbook-renderkit preprocess"

[output.pdf]
command = "mdbook-renderkit render-pdf"
# template = "theme/pdf.typ"
# admonish = false
# section-number = false
# chapter-no-pagebreak = false

[output.docx]
command = "mdbook-renderkit render-docx"
# section-number = false
# chapter-no-pagebreak = false
# toc = true
# toc-depth = 3
```

PDF templates can use the placeholders `MDBOOK_RENDERKIT_TITLE` and
`/**** MDBOOK_RENDERKIT_CONTENT ****/`.
