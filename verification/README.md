# xdcc_extractor

A worker that watches download directories, waits until a release has
stopped changing, tests and extracts its archives (unrar, 7z or tar),
records the outcome in a history directory, cleans up the archives and
reports through ntfy; with a password-protected web interface and a few
command-line reports.

The library in `src/` holds the logic, verified with Verus:

- `archive`, `extract`: which files are archives, where a multi-part set
  starts, the extraction plan, the tool commands, the cleanup decisions.
- `worker`, `queue`: release tracking, readiness, retry delays, the job queue.
- `history`: marker names and contents, failed attempts, the failure list.
- `config`, `settings`, `toml_edit`: the configuration, its checks, and the
  settings form applied to the configuration text.
- `notifications`: what is sent to ntfy, and when.
- `cli`, `dryrun`, `status`: command-line arguments, scan, dry-run report,
  safety check and the status report.
- `passwords`, `backups`, `logs`, `auth`, `disk`, `html`, `pages`, `api`: the
  password list, backups, the log buffer, web access, sizes, the web pages
  and the JSON view of the configuration.
- `text`, `paths`: strings and paths.

`app/` runs it: file system, processes, the notify watcher, the HTTP
server, serde and tracing.
