# hfs_rs

An HTTP file server: a virtual file system of
shared files, real folders, virtual folders and links, served over HTTP
with directory listings, byte ranges and multipart uploads.

- `src/` is the library, verified with Verus:
  - `vfs/`: the tree (`mod.rs`), its model and invariant (`spec.rs`),
    subtree facts (`lemmas.rs`), URL paths and look-up (`paths.rs`),
    directory listings (`listing.rs`) and storage (`store.rs`);
  - `http/`: byte ranges, escaping and URLs (`mod.rs`, `spec.rs`), HTML
    pages (`page.rs`), authentication, uploads and routing (`request.rs`);
  - `config.rs`, `i18n.rs`, `theme.rs`, `server.rs`: settings, the string
    table, appearance and the server lifecycle;
  - `actions.rs`: what the window's commands decide (log, accounts,
    server options, the tree rows shown);
  - `editing.rs`, `input.rs`: offsets in an edited line (bytes, UTF-16,
    masked rendering, grapheme boundaries) and the text input's state
    under each editing key;
  - `text.rs`, `pattern.rs`: character-level helpers;
  - `outside.rs`: the calls into other crates, with their trusted
    contracts.
- `app/` is the program around it: a headless server (hyper and tokio),
  JSON storage of settings and tree, and the file-system probing that
  the library leaves to its caller.
- `tests/` runs the library on concrete values.
