# review_annotation

Review comments kept in a buffer as comment lines: a popup takes a comment and
writes it as a `[TYPE] text` marker above the annotated row, so that it stays
with the file, shows in every view and is found by a search.

- `src/` is the verified library. `text`, `decimal` and `comment` handle text;
  `labels` the comment types; `scope` and `marker` how a marker is written and
  read; `buffer`, `popup` and `editor` what the editor does with it; `laws` what
  holds of all of it together.
- The editor holds what it reads of the window around it as plain values, and
  lists what it asks of the window in `Editor::effects`.
- `app/` carries out those requests and draws the popup.
- `tests/` runs the library.
