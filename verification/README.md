# job-orchestrator

A job executor for Kubernetes: it claims jobs from a PostgreSQL queue, runs
each one as a Kubernetes Job (with an output-collector sidecar), follows it
to the end, retries transient failures, and drives DAG workflows whose nodes
are such jobs.

The library under `src/` is written in Verus. It holds the decisions and the
data of the executor, each function with its contract:

- `config`: reading settings from environment-variable values.
- `types`, `dag`, `json`, `strmap`, `views`, `text`: the records, the stored
  names of statuses and modes, JSON values kept as compact JSON text, an
  insertion-ordered string map, and text primitives.
- `database`, `dag_store`: the store traits, specified over the records they
  hold; `mocks`: in-memory stores that meet those specifications exactly.
- `executor`: topics, claim limits, retry decisions, the Kubernetes job
  specification of a claimed job, and what the executor records and updates
  at each step of a job's life.
- `orchestrator`: completion and failure of DAG jobs (child jobs, skipped
  descendants, the status of the DAG execution).
- `k8s`: the job manifest and the reading of Kubernetes' answers.
- `sql`: the statements and parameters that the PostgreSQL store runs.
- `system`: the clock and fresh identifiers.

The few calls into `chrono`, `uuid`, `serde_json` and the standard library's
`str::to_uppercase` stand behind small trusted wrappers (in `system`, `json`
and `executor`). Where a few lines state a result (the text `serde_json`
writes for a string, the shape of a version-4 UUID) the contract states it;
`str::to_uppercase` and the reading of a JSON string are named results; the
clock promises nothing. `str::trim`, whose whole behaviour is a few lines, is
written and proved in `config`.

The store traits speak of their records only for stores that answer from
them (the in-memory stores in `mocks`); a store kept outside the program,
such as the PostgreSQL ones in `app/`, keeps the defaults and is described
by nothing proved here.

`app/` is the service around the library: environment access, the
PostgreSQL connection pool and repositories, the Kubernetes client, and the
asynchronous polling and event loops that carry out the library's decisions.
`tests/` exercises the library with concrete values.
