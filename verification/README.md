# floatdea

Notes on canvases, with folders, files, pictures and conversations beside them.

- `src/` is the library: the workspace with its cards, the stores, the chat and
  its tools, and every decision that the windows take. It is verified with Verus;
  the contracts stand at the functions, and `src/app/laws.rs` collects what holds
  of the page as a whole.
- `app/` is the program around it: windows, files, the network and everything in
  floating point.
- `tests/` runs the library.

Coordinates are kept as the bits of floating-point numbers: the library moves them
around and stores them, and the program computes with them.

What the library takes from other crates stands behind small functions whose doc
comments say what is relied on: pictures (`image`), digests (`sha2`), identifiers
(`ulid`), the text of PDF files (`pdf-extract`) and formulas (`mathjax-svg-rs`).

`pdf-extract` panics on many damaged files, and on some it calls itself without
end. So it is run on threads of `tokio`, on which a panic stays, and only on files
that were found to come to an end: `src/data/ai/lengths.rs`, `outline.rs` and
`nesting.rs` say when that is, and `pdf.rs` tests it before each call.
