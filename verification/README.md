# wikid

A terminal Wikipedia reader whose core is verified with Verus.

- `src/` is the library, every function proved against its contract:
  - `parser/` turns an article's HTML into wrapped lines, links and headings
    (paragraphs, lists, headings, images, code listings, tables with spans);
  - `app/` is the reader's state: tabs and panes, scrolling, link focus,
    history, the search box, in-page search, the list dialogs, key handling
    and what network replies do;
  - `api/` builds the requests to Wikipedia and reads the replies;
  - `audio/`, `graphics/`, `feed/`, `saved_lists.rs`, `clipboard.rs`,
    `mouse.rs`, `paths.rs` hold the rest of the reader's rules.
- `app/` is the program around it: it reads keys and commands from the
  terminal, sends the requests over HTTP, keeps files on disk, runs the audio
  player and the clipboard programs, and prints the active pane.
- `tests/` runs the library on concrete cases.

Outside crates called from the library: `tl` (HTML parsing), `unicode-width`
(column widths) and `fastrand` (shuffling), each behind a small trusted
wrapper whose contract says what the library relies on.
