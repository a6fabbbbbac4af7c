# Phlo Transform engine

Planning, execution, state, diffing and promotion of SQL models over a warehouse
with versioned branches, written in Verus: every decision is a function over plain
values with a proved contract.

- `src/` is the library. It never talks to a warehouse, a catalog server, a
  database or a file system: what those report is handed in, and what has to
  happen is handed back.
- `app/` carries the decisions out: adapters, the Nessie server, SQLite and
  PostgreSQL state, artifact files.
- `tests/` runs the library on concrete values.

## Modules

| Module | What it decides |
| --- | --- |
| `workspace`, `graph` | compiled models, seeds and tests; dependency closures |
| `plan`, `planner` | what a selection builds, skips or reuses, and why |
| `schedule`, `runner`, `run` | the order of a run, attempts, blocking, results |
| `resume` | continuing an interrupted run, retrying a failed one |
| `failure` | classification and bounded backoff |
| `state`, `store` | records, and the rules of the tables they are kept in |
| `contracts`, `diff`, `branch_diff` | contract, data and reference comparison |
| `environment` | candidate branches and their catalogs |
| `audit`, `gates`, `promotion` | evidence, gates, and the merge |
| `lineage_diff`, `artifacts` | lineage evidence and the files of a workspace |
| `text`, `names`, `order`, `seqs`, `util` | text, ordered maps, sorting, time, hashes |

What a run, a plan or a promotion may rely on is stated as laws: the public proof
functions whose names begin with `law_`.
