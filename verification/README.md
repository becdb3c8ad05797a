# agpeer

The verified core of the agpeer download manager, written in Verus.

- `src/` is the library, verified by Verus: the normalized transfer and
  search model, persisted state names, configuration overlays, torrent
  metainfo parsing and source validation, the in-memory torrent engine,
  Soulseek transfer bookkeeping and delivery decisions, magnet search
  scraping and hook output normalization, media classification and library
  organization, the post-processing step pipeline, the event history and
  progress throttle, log rotation, the debugging tools' reports and the
  API's token and web UI rules. Public proof functions named `law_*`
  state the properties that hold across calls.
- `tests/` runs the library on concrete values.
- `app/` is the `agpeer` command line around the library: configuration
  files, the API token file, running the post-processing steps of a
  downloaded file, organizing a completed transfer's files into the
  library as a recorded job, organizing single files on disk, the library listing,
  file-backed secrets and the debugging tools over logs, source and git.
