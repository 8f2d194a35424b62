# courtcode

The verified core of a basketball video-analysis tool in the style of
Sportscode: code windows and their buttons, tags on a video's timeline,
tag filters, playlists of clips with share links, and game statistics
(counts by category, quarter, court zone, possession and shot result, the
most involved players, and the category data matrix).

- `src/` is the library, written in Verus: every function carries a
  contract and is proved against it; laws that relate several calls are
  public proof functions beside the functions they speak of.
- `app/` is the command-line demo and the application shell around the
  library: the SQLite store, JSON export, file sizes, and the
  arithmetic on seconds (clip durations, duration bounds of a filter,
  average clip length, field-goal percentage).
- `tests/` runs the library on concrete games.
