# dispatch

Hands release assets to network-booted test machines and tracks each
machine through its job: assigned, downloading, booting, reported, and
finally finished or failed.

- `src/` is the verified library:
  - `jobs`: the job table and its operations, specified over `Seq<Job>`;
  - `laws`: properties that span operations (one job moves per step,
    closed jobs stay closed over any run, assets stay a set, no machine
    holds two assigned jobs, asking again is idempotent, the full cycle);
  - `service`: the request-by-request decisions of the HTTP service;
  - `status`: counts, row looks and the status line of the dashboard;
  - `units`: byte counts in binary units, with `f64` rounding done exactly
    in integers;
  - `avahi`: the service record and instance name announced over Avahi;
  - `clock`, `net`, `term`: time, addresses and terminal events.
- `app/` is the program around it: the HTTP server, GitHub, D-Bus, the
  terminal, logging and argument parsing.
- `tests/` runs the library on concrete values.
