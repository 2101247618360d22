# kanji_practice_sheet

Practice sheets for writing kanji: for each kanji one square with the whole
character, one square per stroke showing the strokes so far, the rest of the
line with a pale copy, then extra dotted or empty lines.

- `src/` is the verified library: file names of the KanjiVG stroke files
  (`arg_parsing`), the drawing cursor and its moves (`layout`), the stack of
  page images (`pages`), the squares of one kanji (`pdf_creation`), the whole
  sheet (`create_pages` in `lib.rs`), stroke counting (`svg`), the messages
  of a request (`worker`) and the request form (`form`). `raster` holds the RGBA
  pictures and the two calls into the `image` crate (decoding a PNG file,
  blending one picture onto another), with what they are trusted to do.
- `app/` is the GTK program around it: reading the stroke files and the
  pictures, rendering the strokes, writing PNG and PDF files.
- `tests/` runs the library on concrete sheets.
