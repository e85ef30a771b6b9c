# savecodex

Turns a folder of source files into a Word document: each file is run, its
output is rendered as a terminal-window screenshot, and code and screenshot
are laid out one after the other. A small HTTP API and a command-line tool
drive the same steps.

## Layout

- `src/` is the library, written in Verus. Its own functions carry
  contracts that Verus proves; the few small wrappers around outside crates
  (`natord`, `serde_json`, `mime_guess`, `docx_rs`, and `String::push`) carry
  contracts that are trusted, read against those crates' sources:
  - `text`: string operations (split, join, replace, trim) with their meaning;
  - `ansi`: SGR escape sequences to styled runs;
  - `term`: colours, title, prompt, lines and frame geometry of a screenshot;
  - `runner`: language configurations, their layering and the commands run;
  - `natural`: natural ordering of names (`natord`);
  - `pack`: which files are packed, their order, and each screenshot's text;
  - `document`: the paragraphs of the packed document;
  - `word`: the document built with `docx_rs`;
  - `prompts`, `ai`: prompts and the request/reply exchange with a model;
  - `web`: the decisions of the HTTP API.
- `app/` is the program around it: command line, HTTP server, file and
  process I/O, and the glyph rasterising that works in floating point.
- `tests/` runs the library on concrete inputs.
