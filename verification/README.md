# metadata_scan

Plans for reading the metadata of a table from its transaction log, with proofs of what they
return.

A table's log is a checkpoint, followed by commits. Both hold actions that add files to the table or
remove them. A scan of the table needs the adds that are live: those that no later action replaced
or removed, without those whose statistics or partition values show that no row can be wanted.

* `checkpoint_shape` finds out where a checkpoint keeps its file actions, and whether it has parsed
  statistics that a scan can use. It asks the engine for at most two footers and one scan, and takes
  no batch of that scan after the first sidecar.
* `scan_plan` builds the relational plan that yields the live adds.
* `skipping` makes the predicate by which files are pruned.
* `plan`, `struct_patch`, `expressions` and `schema` are what plans are made of; `log_segment`,
  `actions`, `files` and `location` describe the log; `executor` and `stats_rules` are what a user
  of the library provides.

Every function states what it returns over mathematical values: a `Plan` over a `PlanView`, a
builder over a `RelationView`. What plans mean is the subject of `semantics`, which gives the rows
of a plan for any contents of the files. The modules whose names end in `_laws` prove what holds of
them:

* `arm_laws`: the rows that are read from the commits and from the checkpoint, and the errors.
* `output_laws`: what is returned of an add.
* `skipping_laws`: which adds are pruned.
* `replay_laws`: the rows of a whole plan. Adds are pruned first and removes never; the newest
  action on a file wins; an add of the checkpoint is live if no commit acts on its file. Every row
  satisfies the pruning predicate, and an add that does is returned if it is newer than every other
  action on its file.
* `sidecar_laws`: sidecars are read alike, whether a hint lists them or a manifest names them.
* `checkpoint_laws`: what holds of every resolution of a checkpoint's shape.

URLs are resolved by the `url` crate; `location` says what is taken from it on trust.
