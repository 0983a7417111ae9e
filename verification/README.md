# radvisor

A resource-utilization monitor for containers on Linux. It polls a provider
for the running targets, finds the cgroup of each one, and on every
collection tick reads the cgroup's virtual files into one CSV row per target.
The program in `app/` polls the Docker daemon; the decisions for Kubernetes
pods (quality of service class, pod cgroup, messages) stand in the library,
but the program has no Kubernetes API client, so its Kubernetes provider
reports itself unavailable.

## Layout

- `src/` is the verified library (Verus):
  - `util/`: byte scanning, fixed-size working buffers, trimming, decimal
    parsing and formatting, cgroup path construction and cgroup version and
    driver detection, the target pool (`ItemPool`) and its laws, and the
    lazily summed quantities used for aggregated statistics.
  - `collection/`: the readers that turn cgroup v1 and v2 files into record
    fields, the collectors that assemble a row and its header (with the laws
    that rows line up with headers; for cgroup v1, whenever the CPU stat
    files can be parsed), the collection status machine that
    decides when buffers are flushed, and the flush event records.
  - `polling/`: the provider decisions (cgroup of a container or pod, names
    in messages, error suggestions).
  - `shell.rs`, `cli.rs`: message layout and option interpretation.
- `app/` is the program around the library: argument parsing, threads and
  timers, file and network I/O, the Docker API client and terminal output.
- `tests/` runs the library on concrete inputs.

Calls into outside crates that the library makes (`atoi`, `itoa`,
`num-traits`, `csv`, `textwrap`, and a few std functions) go through small
trusted wrappers whose contracts state what those functions do.
