# cosmic_files (verified core)

The logic of a desktop file manager, written in Verus and proved against its
contracts:

- `src/` — the library. Locations and their titles and ancestors (`tab`),
  a tab's history, selection, clicks and keyboard navigation (`tab_state`),
  file operations: their descriptions, unique copy names and copy planning
  (`operation`, `recursive`), thumbnail cache naming and validity
  (`thumbnail`), thumbnailer and desktop-entry command lines (`thumbnailer`,
  `mime_app`, `exec`), search filters (`search`), permission bits (`mode`),
  large previews (`large_image`, `pdf_preview`), the theme catalog, hidden
  files, the trash's answers, network walks and remote connection keys,
  the order of a sorted folder listing (`column_sort`), folder and trash
  icon names (`icons`), the state of a running operation (`controller`),
  which previews the system thumbnailing service owns (`quicklook`),
  completions for a typed path (`completion`) and case-insensitive regular
  expressions and globs (`patterns`).
- `tests/` — tests run against the compiled library.
- `app/` — the contact with the system: file system queries, the trash,
  running file operations step by step (`operations`), the applications
  cache (`mime_cache`), the walk of a network search (`network_search`),
  locale collation, processes, and floating-point formatting.
