# mrpm

A Modrinth plugin and mod manager, split into a verified library (`src/`)
and a thin command-line program around it (`app/`).

The library holds what the manager decides: reading package references
(`name` or `name@version`), keeping the project file and the install state
in step, choosing which version of a project to install (newest game
version first, pinned version or minimum release channel), and the install,
update, removal and clean-up procedures. Those procedures are state
machines: the library says what to do next (fetch versions, remove a file,
download a file, report a package) and the program does it and hands back
the outcome.

The program parses the command line, prompts, reads and writes the project
file (`mrpm.project.toml`) and the install state
(`<artifacts>/.mrpm.install-state.json`), talks to the Modrinth API and
prints the results.

A project file may set `minimum_version_type` (`release`, `snapshot`,
`beta` or `alpha`); without it only releases are installed unless a version
is given. Stability ranks release above snapshot above beta above alpha.
