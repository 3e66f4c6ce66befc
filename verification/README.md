# scholarpress

Formatting validation for dissertations and other scholarly documents.

`src/` is a library verified with Verus. It holds the rules: Word (DOCX)
reading (paragraphs, style and run formatting, text, page estimate,
fonts), the registry of checkers and the checks that decide on text
(boilerplate templates, committee order, table-of-contents parity and
entries, font weight and family, justification), the check engine's
planning, reports and their text rendering, corpus calibration tallies,
PDF annotation notes, text chunking, template rendering, workspace and
profile bookkeeping, the Goose configuration and template reference
updates made through serde, the pages the margin checks skip, and the
command-line and server argument decisions. Every public function states
its result in its contract; the laws that relate several functions are
proof functions.

`app/` is the `scholarpress` program around it: PDF extraction, heading
detection, the geometric checks that measure page coordinates, Typst
compilation, PDF annotation, the MCP server, the HTTP publishing service
and the command line.

`tests/` runs the library on concrete inputs.
