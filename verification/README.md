# oh_check

The checker core of a directory of interfaces, verified with Verus.

- `src/` is the library. Every module states its behaviour over `Seq<char>`
  models and proves it: RFC 3339 timestamps read strictly (every field
  digits only and in range, the day within its month; anything else is
  refused) and written in UTC (`time`), security.txt
  evaluation (`sectxt`), the check gradient over the append-only history
  (`gradient`), badge aggregation (`badge`),
  reading a manifest's interfaces and planning their probes (`model`),
  probe requests and the judgement of answers and facades (`probes`),
  origin rewriting (`origin`), the card drift state machine (`drift`),
  and what a run reports: entries, their badges' gradients, failures
  (`report`).
- `app/` is the command line: listing and reading manifest and history files, the
  HTTP transport, writing badge documents. It hands the library plain
  values and acts on what comes back.
- `tests/` runs the library on concrete values.
