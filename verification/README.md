# elvpath_lib

The planning core of ElvPath, a desktop tool that plans and deploys developer
environments on Windows, macOS and Linux, written in Verus.

- `src/` is the verified library:
  - `models.rs`: catalog, plan, detection and execution data.
  - `text.rs`: Unicode whitespace, trimming, words, lines, joining, quote escaping.
  - `catalog.rs`: catalog consistency checks (`validate_catalog`).
  - `planner.rs`: depth-first dependency ordering and plan layout (`build_install_plan`).
  - `detection.rs`: running detection rules and reading versions (`detect_item`, `scan_catalog`).
  - `execution.rs`: dry runs, PowerShell installers, privilege decisions and process results.
- Runners and observers are handed to the library wrapped: `CommandRuns` and
  `ProcessRuns` keep, for the proofs, a record of every run made through them, and
  `HandedLines` one of every line handed to the observer. The contracts of detection and
  execution speak of these records.
- `app/` holds what needs the operating system: reading the catalog file, running
  processes, checking for administrator rights, and the user-facing commands.
- `tests/` exercises the library on a small hand-built catalog.
