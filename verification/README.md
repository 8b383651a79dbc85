# acerola

The verified core of Acerola, a desktop library for comics and manga kept as
folders of CBZ/CBR/PDF chapters, with peer-to-peer sync of files and reading
history between devices.

`src/` is checked by Verus. Each public function states what it returns in
its `ensures`, over spec functions of `Seq`, `Map` and plain values; the
properties that span several functions are public proof functions.

- `text`, `paths`, `formats`: strings, `Path`-like file names, file formats.
- `files_guard`, `path_guard`: which files enter the library; paths that stay
  inside the library root; path identifiers.
- `chapter_archive`, `natural_sort`, `chapters`, `scanner`, `library`: chapter
  sort keys, natural ordering, the library scan and PDF conversion plan.
- `archive`, `reader`, `reader_session`: reading CBZ archives held in memory,
  the reader's page cache.
- `chapter_listing`, `templates`, `metadata`: chapter pages, library queries,
  naming templates, metadata matching.
- `messages`, `registries`, `transfer`, `file_sync`, `history_sync`, `browse`,
  `peer_store`, `sync_log`: the sync protocols' messages and decisions.
- `checksum`, `security`, `clock`: SHA-256, AES-GCM master-key encryption,
  the wall clock.

Calls into `sha2`, `aes-gcm`, `rand`, `lru` and `zip` go through small
trusted wrappers whose contracts are stated next to them.

`tests/` runs the library on concrete values. `app/` holds the file system,
keystore and JSON glue around it.
