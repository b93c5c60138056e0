# rslogo

A small Logo interpreter with turtle graphics, written in Verus. Programs
are parsed into a syntax tree and run by a turtle that draws lines onto an
SVG image (the `unsvg` crate); the command-line program saves the image as
SVG or PNG.

```
rslogo <program.lg> <image.svg|image.png> <height> <width>
```

## Layout

- `src/text.rs`: decimal text of numbers and truth values, as Rust's
  `parse` and `to_string` give it, with the laws that reading back what was
  written gives the value.
- `src/logo_syntax.rs`: the syntax tree and its mathematical view.
- `src/logo_grammar.rs`: the grammar, as spec functions on character
  sequences.
- `src/logo_parser.rs`: the parser; each function is proved to return what
  the grammar gives.
- `src/logo_semantics.rs`: what running a statement does to the turtle,
  as spec functions.
- `src/drawing.rs`: the trusted interface to `unsvg`.
- `src/logo_interpreter.rs`: the interpreter; each step is proved to do
  what the semantics says.
- `src/logo_reader.rs`: the file-name check and the parse of a file's text.
- `src/logo_laws.rs`: properties of every run, proved from the semantics.
- `app/main.rs`: argument handling, file I/O and saving the image.
