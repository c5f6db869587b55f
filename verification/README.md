# shift-clock

A local, durable workflow orchestrator. A daemon schedules and supervises workflows
that are written in any language, journals each of their steps, and resumes them
after a crash, a park or a restart.

- `src/` is the verified library: the decisions of the daemon and of its clients, as
  functions from plain values to plain values.
  - `text`, `order`, `json`: strings, stable sorting, JSON values.
  - `clock`, `config`: the wall clock, deployments and cron expressions.
  - `rows`, `tables`, `store`: the durable tables, their changes, and every operation.
  - `protocol`, `launch`, `worker`: what workflows say, how they are started, and what
    the worker makes of it.
  - `scheduler`, `api`, `client`, `cli`, `daemon`, `paths`, `server`, `tui`: the parts
    around the worker.
  - `laws`, `workflow_laws`: what holds of the tables and of workflows, whatever is done.
- `app/` is the program around it: SQLite, sockets, processes, HTTP, the terminal, real
  numbers, and JSON and TOML as texts.
- `tests/` run the library on concrete values.

The store keeps the tables in memory and remembers every change. The program writes
the changes of each step to SQLite in one transaction before anyone is told, and reads
the tables back when it starts. That the changes rebuild the tables is proved in `laws`.
