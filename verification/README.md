# appkit

A verified library behind three desktop and social-media tools, and the
programs built on it.

- `ewwkit`: a status-bar daemon for eww. The library keeps the displayed
  state (battery, network, audio, brightness, the compositor's outputs,
  workspaces and windows, the single open popup), parses what the
  sysfs battery and backlight files, `nmcli`, `pactl` and the compositor
  report, picks icons, and
  decides what each event changes and which outside work follows.
- `matrix-listener`: a Matrix bot that hands messages to Windmill jobs. The
  library extracts the messages of a sync, answers pings, keeps the sync
  token and the subscriber list, and builds the Windmill requests.
- `postkit`: a scheduler for Bluesky, X, Facebook Pages and Instagram. The
  library composes posts per platform (grapheme limits, threads, rich-text
  facets, media steps), signs X requests with OAuth 1.0a, plans how each
  composed step is published, and holds the scheduler's rules: the job
  queue, the post lifecycle, retries with exponential backoff, the listing
  query, authentication and the HTTP outcomes.

Layout:

- `src/`: the library, verified with Verus. Every public function states its
  result in `ensures`; properties that span several calls are stated and
  proved as `law_*` proof functions. Calls into outside crates
  (`unicode-segmentation`, `regex`, `hmac`/`sha1`, `base64`, `rand`,
  `chrono`) go through small trusted wrappers whose contracts say what
  those crates document.
- `tests/`: ordinary Rust tests of the library on concrete values.
- `app/`: the programs (one binary, chosen by its first argument): sockets,
  processes, files, HTTP, SQLite and Redis around the library's decisions.
