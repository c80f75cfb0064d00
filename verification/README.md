# update_generator

Gathers new SQL scripts and compiled classes from a source directory into a
dated bundle directory (`update_<year>/update_<year>.<month>.<day>/<n>. Разное`),
next to a copy of the sample files, and points the bundle's `_install.sql` at it.

- `src/` is the verified library, checked by Verus:
  - `exclusions` — the exclusion list and path comparison;
  - `selection` — which files of the source directory go into a bundle;
  - `layout` — the dated directories and the numbered bundle directory;
  - `script` — reading, rewriting and writing the install script;
  - `events` — what the window does with an event;
  - `laws` — properties that hold across these functions;
  - `text` — character helpers.
- `app/` is the window program around it: settings, logging, the file
  system and the Sciter window.
- `tests/` runs the library on concrete values.
