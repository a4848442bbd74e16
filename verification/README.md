# Nucleus, verified

A small Linux container engine whose decisions are proved with Verus.

- `src/` is the verified library. It reads memory limits (`memory`), hands out
  container addresses (`ipam`), names interfaces, files and directories (`state`,
  `paths`, `container`, `image`), parses cgroup files (`stats`), and writes down every
  host-side step of a container run as data (`orchestrator`, `actions`): commands,
  file writes, directories to create and remove, in order. `run` is the state
  machine of a container run: from the phase and the last outcome, the next phase
  and the next action.
- `app/` is the `Nucleus` program: command-line parsing, the kernel calls
  (namespaces, mounts, `pivot_root`, capabilities, seccomp), downloads and archive
  unpacking, JSON records, and carrying out the steps that the library decides.
- `tests/` exercise the library on concrete values.
