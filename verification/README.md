# sail_iceberg

Writes to Iceberg tables: how rows become files, and how files become a new version of a table.
The rules are in `src/`, stated in contracts and proved with Verus. What touches stores, catalogs,
query plans or Python is in `app/`.

- `snapshot_properties`: what a caller attaches to a snapshot, and the snapshot that it expects.
- `plan_builder`: the plan of a write.
- `table_writer`: the files of a task, partition by partition.
- `commit_exec`: the plan node that commits, and the reading of its input.
- `commit_run`, `commit_state`, `commit_laws`: the steps of a commit, what it carries from one to
  the next, and what holds of every commit.
- `requirements`, `table_changes`, `live_files`, `task_files`: the rules that the steps apply.
- `table`, `error`, `content`: what tables, changes and errors hold.
- `text`, `text_map`, `ordered`, `identifier`, `location`: texts, identifiers and locations.
- `python_error`: failures of data sources that are written in Python.

A step of a commit or of a writer is a value that asks for one thing to be done outside. The
method that is given the reply says what comes next. A run is a loop over such steps, until one of
them says that it is done.
