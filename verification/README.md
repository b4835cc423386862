# qwanban

The host and guest sides of a system that runs QA and bug-fix jobs in
Hyper-V VMs, with its decision logic proved correct by Verus.

- `src/` is the verified library: wire types and the error model (`proto`),
  the case state machine, admission scheduler, manifest builder and the
  orchestrator's case table (`orchestration`), the secrets snapshot, its
  hot reload and the dummy-to-secret rewriter (`vault`), the proxy allowlist
  and request pipeline (`proxy`), model routing (`inference`), the artifact
  store layout, segment index, clip cutter and report page (`artifacts`),
  the broker's case registry and ingest filing (`broker`), the guest's
  breadcrumb table and MCP tool answers (`guest`), GUID parsing and the
  in-memory Hyper-V driver (`hyperv`), and the stub loader's protocol
  frames and serve-loop decisions (`stub`).
- `app/` is the program around it: the command line, file and network I/O,
  the async service traits and their implementations, serialisation, and
  the Windows hvsocket transport.
- `tests/` exercises the library on concrete values.
