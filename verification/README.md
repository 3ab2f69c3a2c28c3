# cargo-e

`cargo e` finds the runnable targets of a Rust project (examples, binaries,
benches, tests, Tauri/Dioxus/Leptos apps and scripts) and runs one of them,
or all of them in turn. When exactly one example is defined it runs that
example without being told its name.

## Layout

- `src/` is the library, verified with Verus. Each public function states in
  its contract what it returns; the properties that relate several calls are
  public proof functions (`lemma_*`).
  - `target`, `discovery`, `runnable`, `main_name`, `findmain`, `samples`,
    `collect`, `select`: which targets a project has, what they are called,
    which one to run.
  - `manifest`, `command_builder`, `cli`: the command line that runs a target.
  - `dispatch`, `diagnostics`, `render`, `runner`, `report`: reading cargo's
    output line by line, collecting diagnostics, and what is printed after a
    run or a failed build.
  - `runall`, `process`, `status`, `installer`, `prompts`, `registry`: the
    decisions of the run-all loop, of stopping processes, of installing
    missing tools, and the table of running processes.
  - `text`, `bytepos`, `fmt`, `paths`, `pattern`, `version`: strings, byte
    offsets, durations and sizes, paths and regular expressions.
  - `eventdispatcher`: the context a line-reading thread works for.
- `app/` is the command-line program around the library: argument parsing,
  file and process I/O, threads and prompts.
- `tests/` runs the library on concrete values.

Calls into `regex`, `nu-ansi-term`, `comfy-table`, `toml` and `std::path` are made
from `src/` through small trusted functions whose contracts name or state
what they return.
