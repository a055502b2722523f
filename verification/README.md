# save_manager

A service for sharing and versioning game saves: users upload versions of a save,
share a save with other users at `View` or `Edit` level, and the desktop client
downloads a version and installs it into a game's save slot.

- `src/` is the verified library (Verus): access rules and the access query, the
  server's checks on each request and its upload form, version archives, the save
  list's filter and stable sort, the owner's access list, the version list, desktop
  paths and save slots, routes, the background-load state, the client's reactions to
  the server's answers, and the notification queue. New version numbers are assigned
  by the database (one above the save's highest); `versions::next_version_number`
  states the same rule for a list of versions held by the client.
- `tests/` exercises the library on concrete values.
- `app/` is the unverified shell: the SQLite-backed request handlers, file-system
  work, and a command line that installs a cached version into a slot.

Outside crates called from the library: `chrono` (timestamps) and `zip` (archives),
each behind a trusted wrapper whose contract is stated in its doc comment.
