# green_linter

A static auditor for Node and Docker projects: it reads a project's root
(package.json, Dockerfiles, compose files, scripts, JavaScript/TypeScript
sources) and reports measurable waste, which the command-line tool turns into
an estimate of CO2.

## Layout

- `src/` is the library, written in Verus. Every function states its result
  in `requires`/`ensures` over spec functions on plain values, and the laws
  of the library are public proof functions (`law_*`).
  - `project_scanner` turns a listing of the project root into a
    `ProjectInfo`: project types, parsed `package.json`, Dockerfiles, the
    Dockerfile names that compose files and scripts reference, and the import
    index of the sources.
  - `eco_checks` holds the checks (`docker_waste`, `heavy_deps`,
    `build_artifacts`, `lockfile_audit`) and `run_all_checks`.
  - `report_printer` computes what the reports show: type line, category
    counts and summary, locations, icons, totals.
  - `config` decides what a line typed at the country prompt leads to.
  - `text` and `json` are the string model and the `serde_json` calls.
- `app/` is the program around it: argument parsing, reading the project
  from disk, the country configuration, the CO2 arithmetic (floating point)
  and the colored and JSON output.
- `tests/` runs the library on concrete projects.
