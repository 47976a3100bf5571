# Legal Hold

A legal hold preserves what its scopes cover until it is released. This crate is
the logic of a PostgreSQL-backed Legal Hold Plugin and of its fail-closed
retention guard, written and verified in Verus.

The library performs no I/O. Each operation is a run: it asks for one thing at a
time, a dependency's answer or a storage statement, and decides on what comes
back what it does next. `app/` carries the runs out.

## Layout

- `text`, `timestamp`, `json`, `digest`: bounded text, decimal numbers, instants,
  JSON values and digests.
- `config`, `schema`, `lifecycle`, `failure`: configuration, the owned schema,
  schema administration and activation, and faults.
- `hold`, `statement`: holds as rows and as responses, and the statements and
  replies exchanged with storage.
- `command`, `query`, `guard`: runs that change a hold, runs that read, and runs
  of the retention guard.
- `authorization`, `request`, `administration`: who may administer holds, what a
  request asks for, and the run of a request from its first check to its answer.
- `tools`: agent tools over the administrative operations.
- `tables`, `transaction`, `paging`, `laws`: a model of the tables, what runs do
  to it, and what follows for the library as a whole.

`app/` executes statements with `sqlx`, asks the other Plugins, and puts values on
the wire. `tests/` runs the library on concrete values, with tables in memory.

## What is proved

- A repeated request is answered from its receipt for good, and a key that is
  reused for a request that differs in any field is a conflict, unless two
  different wire forms have the same SHA-256 digest.
- Scope changes and releases compare and advance the revision under a lock;
  refused commands change nothing; released holds never change again.
- A read right after a command gives back what the command answered.
- The guard allows an action exactly when no active hold covers it, and stores
  the decision with the exact holds and revisions before it answers, up to such a
  collision.
- A decision is named by its evidence: the same evidence gives the same
  identifier, and different evidence another one, up to a collision.
- The revision of a hold is the number of its activity events, and removing a
  scope undoes adding it.
- Storage is reached only by a granted and valid request; a refusal or a failure
  of a dependency is never taken for a yes.
- Pages are bounded and show what is stored. A walk over them ends, shows every
  hold or event once and in order, and shows the same whatever the page size.

The laws about storage hold of the model in `tables`: a transaction runs alone on
a copy of the tables that its commit makes durable, and whether a commit that
failed took effect is not known. What outside crates compute is named or stated
at the few functions marked as trusted.
