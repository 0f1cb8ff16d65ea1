# mdviz

The verified core of a local Markdown viewer: a small HTTP server on
`127.0.0.1` that lists directories in a sidebar and previews Markdown,
HTML, source and text files, with export to PDF through a headless browser.

- `src/` is the library, verified with Verus: request parsing and routing,
  URL percent-coding, HTML escaping, size formatting, the sidebar (filtering
  and ordering of directory entries), the pages and replies, the steps of a
  navigation request, the PDF export's document and command line, and the
  port search, with the steps of each request that alternates with the
  file system. A public function states its result over the views of its
  arguments; where part of the result comes from the machine (the parent
  `std::path` finds for a path, the drives present, what a directory
  holds), it states what holds of every outcome, and a companion function
  that takes that outcome as an argument states its result exactly. The `lemma_*` proof
  functions state the laws.
- `app/` is the program around it: arguments, sockets, threads, reading
  files and directories, running the browser, and the window.
- `tests/` runs the library on concrete values.
