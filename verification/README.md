# mdvi

A viewer for Markdown files in the terminal.

- `src/` is the viewer itself, as a library whose contracts are proved with Verus: documents turned
  into styled lines (`renderer`, `page`, `table`, `html`, `code`, `syntax`), the page with room for
  images (`app`, `layout`, `inline_image`, `variant`), moving about (`navigation`, `motion`,
  `width`), searching (`search`, `pattern`, `highlight`), selecting (`selection`), keys (`keys`),
  loading and resizing images (`loading`, `image_work`, `source`), what is drawn where (`screen`),
  and that what is remembered stays true (`coherence`).
- `app/` is the program around it: the command line, the terminal, the file, the clipboard and the
  threads that load and resize images.
- `tests/` runs the library with the crates that it calls.

What the library takes on trust of other crates stands in items marked
`#[verifier::external_body]` and in `assume_specification` items, each with a comment that says
what is claimed.
