# nannou_manager_core

Verified logic of a manager for [nannou](https://nannou.cc/) projects, with a
command-line front end.

- `src/` — the library, verified with Verus. Each module states its behaviour
  in `requires`/`ensures` over the text (`Seq<char>`) of its strings:
  - `text` — white space and trimming (`str::trim`), character helpers, yes/no answers;
  - `git_url` — the default folder name of a clone;
  - `projects` — which directory entries are projects, their order by name;
  - `config` — default settings, path joining, where the settings file lives;
  - `command` — the commands run for a project and their error messages;
  - `create` — the project-creation workflow as a state machine;
  - `compile` — reading cargo's JSON output, the build-and-run state machine,
    the result reported to the user interface;
  - `git` — the git status report, parsing of git output, commit messages;
  - `manifest` — renaming the package in a copied `Cargo.toml`.
- `app/` — the `nou` command-line tool and the desktop glue: it reads the
  disk and the environment, runs processes, and drives the state machines.
- `tests/` — tests of the library.
