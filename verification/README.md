# fleet_drill

The drills of an update fleet: a live demo with its console, an end-to-end test that rolls broken
and valid releases over a cluster under chaos, and a resident soak campaign. The decisions that they
take are a verified library; what runs commands, speaks to the cluster and serves pages stands
around it.

- `src/` is the library, verified with Verus. What each function returns or changes is stated in its
  contract, over spec functions and views; what holds across functions is stated as public proof
  functions.
  - `demo/`: the console's page and server, the epochs and generations of a chaos run, the readiness
    watch, the golden signals, the resources of the demo fleet.
  - `e2e/`: the fleet's layout, the releases that are rolled over it, the generation of the chaos,
    the scenarios that follow it, the verdict on alerts, metrics and the load probe.
  - `soak/`: the seeded plan of a round, the fault schedule, the durable state and the steps that
    keep it valid, recovery, metrics.
  - the rest is shared: texts, names, versions, JSON, the documents that are handed to the cluster,
    HTTP, command lines, endpoints, waits.
- `tests/` runs the library, with the outside crates that it calls.
- `app/` is the program: processes, sockets, files, and what is read from the cluster.

The program is told what the agents and the operator are built with: `UPDATEC_PROVIDER_TIMEOUT_MS`,
`UPDATEC_PROVIDER_SET_PATH`, `UPDATEC_PROVIDER_SET_SHA256`, `UPDATED_REPORT_FRESHNESS_SECS` and
`UPDATEC_BACKEND_METRICS_PORT` have no defaults, and `UPDATED_CONTRACTS` names a program that answers
for the contracts that they share (how a rejection is recorded, which key signs, what a snapshot
holds, how a status is worded, which paths, digests and calendar windows are taken). The console does
not start unless `DEMO_APPLICATION_PATH`, `DEMO_APPLICATION_SHA256`, `DEMO_PROVIDER_PATH` and
`DEMO_PROVIDER_SHA256` say which release it advertises.

Outside functions are called through small wrappers, each of which says in its doc comment which
function it calls and what is taken on trust of it: `serde_json`, `serde`, `semver`, `sha2`, and the
readings of bytes, the quoting of texts and the words on what is no number in `std`.
