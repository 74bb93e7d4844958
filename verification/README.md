# Media Studio

Media Studio converts media files from the KDE Dolphin context menu: the
chosen files become a job in the user-systemd queue, which runs `ffmpeg` or
ImageMagick on them with a conversion profile, checks each result and
commits it beside the input (or into a watch folder's destination).

The decisions of the program are a library verified with Verus: among them
the steps of a conversion (run the engine, check and verify the temporary
result, commit it atomically under a free name), the passes of a size target,
hardware selection and fallback, and the files it writes. The command-line
program around it does the file, process and dialog work those steps ask for,
and the floating-point rate estimates of a size target.

## Layout

- `src/` — the verified library.
  - `text.rs`: strings as character sequences (trimming, case, decimal
    numbers, search and replace, joining).
  - `pathname.rs`: Unix path names read the way `std::path::Path` reads
    them (components, file name, stem, extension, parent, join).
  - `profiles.rs`: conversion profiles and the sorted map that holds them.
  - `builtin.rs`: the profiles that ship with the program.
  - `model.rs`: the configuration, its checks, its upgrade from older
    schemas, loading, and the watch-folder edits.
  - `paths.rs`: where files live, how file arguments are decoded, how the
    name of a result is chosen, job status files.
  - `runtime.rs`: finding programs on `PATH` with `which`, and the probes
    of optional helpers.
  - `engine.rs`: the command lines of ffmpeg and ImageMagick, hardware
    encoder selection and fallback, size targets, tool checks.
  - `queue.rs`: the `systemd-run` command of a job, `queue list` and
    `queue cancel`.
  - `ui.rs`: notifications, the zenity and kdialog dialogs and how their
    answers are read.
  - `pipeline.rs`: the steps of one conversion, the checks of a result,
    the commit loop and the passes of a size target.
  - `desktop.rs`: the Dolphin service menus, the watch-folder unit, which
    files are media.
  - `jobs.rs`: profile lookup, job preparation and outcome, install and
    `doctor` checks, error text.
  - `watch.rs`: a watch-folder run: which directory entries a scan takes,
    and the memory of handed-on files and their modification times that
    decides what goes to the queue.
- `tests/` — tests of the library.
- `app/` — the `media-studio` program: arguments, configuration file
  (TOML), processes, files, dialogs and the watch loop.
