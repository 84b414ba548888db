# charist

A Bible reader's core, verified with Verus: parsing references such as
`John 3:16` or `1 Cor 13:4-7`, placing note and cross-reference markers in
verse text, selecting and copying verses, bookmarks, settings, building a search
index over verses and turning what it finds into results, and every
decision the reader takes on a message.

- `src/` is the verified library. `update/` holds the reader's decisions: each
  takes the state and a message and returns the next state and the action to
  perform, stated exactly by a transition spec. `view_model.rs` computes what
  the views show. `footnotes.rs`, `references.rs` and `text.rs` hold the text
  processing; `search_index.rs` builds and queries a `tantivy` index: what is
  written to it is stated, what tantivy finds for a query is not.
- `app/` is a small command-line front end that performs the actions: reading
  and writing files, the network, and the CBOR and JSON formats.
- `tests/` runs the library on concrete values.
