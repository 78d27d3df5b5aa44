# steamtools

A manager for Steam Lua manifests, written in Verus. The library in `src/`
holds the logic, each function with a contract that Verus proves; `app/` is a
small command-line program that does the file-system and network work around
it.

- `text`, `num`, `paths`: characters, decimal numbers and file-system paths,
  each operation specified the way the standard library behaves.
- `steam`: the tool's records (`Game`, `Steam`, store details) and where a
  Steam installation lives (including Debian package installs).
- `games`: reading app manifests and Lua manifests into the list of games.
- `install`, `installer`: installing an app's Lua manifest from ManifestHub or
  one of the ZIP services, as a sequence of steps whose work the caller does.
- `archive`, `extract`: reading ZIP archives through the `zip` crate, and
  installing the depot manifests and the Lua manifest they hold.
- `melon`: which MelonLoader step to take and which mods to copy.
- `ui`: decisions of the main window: which screen follows on each frame,
  the screen kept and restored between runs, validating the Steam path, the search filter, removing a game,
  where loaded Lua files go, and links and paths. The window's drawing, and
  the flags it keeps only for drawing, are not part of the library.
- The install window's decisions (editing the app id, starting a download,
  its result, Clear)
  are methods of `InstallPopup` in `install`.

Laws that relate several functions are public proof functions named `law_*`.
