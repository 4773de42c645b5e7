# dgrlauncher

A Minecraft launcher (vanilla, Fabric and NeoForge instances, managed Java
runtimes, Microsoft and local accounts, Modrinth mods) whose decisions are
proved correct with Verus.

## Layout

- `src/` — the verified library. Every public function states what it
  returns in its `ensures`, over spec functions on plain values:
  - `text`, `json`: the string and JSON models the rest is stated over;
  - `downloader`: download lists of versions, libraries and assets, managed
    Java archives, the NeoForge installer and launcher updates;
  - `launcher`: the Java choice, the class path and the game command, and
    the file check before a start;
  - `instances`, `settings`, `session`: instance folders and names (with
    renames as a step machine that rolls back on failure), the settings
    file, and single decisions of the launcher window;
  - `window`: the window as a state machine — `update` takes its state and
    a message to the new state and the work to do (notices and their
    timers, the debounced mod search, two-press deletions, mod pages and
    their history, installs and loader switches, update checks), and
    `main_screen` says what the main screen's buttons send;
  - `modrinth`: compatible mod versions, the API requests and answers, and
    the record of installed mods;
  - `auth`: the Microsoft / Xbox Live / Minecraft sign-in requests and
    answers;
  - `digest`, `i18n`, `update_manager`, `system_java`, `screens`: hashes and
    UUIDs, interface language, release selection, Java probes and the
    texts of the main screen.
  Calls into `md5`, `sha2`, `uuid` and `sys-locale` stand behind small
  trusted wrappers whose contracts name what those crates compute.
- `tests/` — tests run against the compiled library.
- `app/` — a command-line front end: files, network, archives and the game
  process. It drives the library's state machines; the window's screens
  and timers themselves are not drawn.

Laws of the library are the `law_*` proof functions.
