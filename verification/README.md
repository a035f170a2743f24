# aeon-engine

The engine of a stream processor: pipelines that carry events from a source through a processor
to a sink, and what runs, upgrades, watches and steers them.

`src/` is a library whose functions carry contracts that Verus proves. `app/` is ordinary Rust
around it: tasks, sockets, files, dynamic libraries and the HTTP server. Nothing in `app/` decides
what the library can decide; it performs what the library says is to be done and reports what came
of it.

## Layout of `src/`

| Module | What it holds |
|---|---|
| `pipeline::direct_run`, `source_run`, `processor_run`, `sink_run` | The stages of a pipeline as state machines: from an event to the next state and what is to be done |
| `pipeline::whole_run` | What holds of the stages over a whole run: nothing is lost |
| `pipeline::source_task`, `processor_task`, `sink_task`, `failures`, `recovery` | The decisions of the stages: budgets, routing, acknowledgements, retries, checkpoints, sweeps |
| `pipeline::ring`, `control`, `config`, `metrics` | What connects the stages, replaces their parts, sets them up and counts their work |
| `pipeline_manager`, `pipeline_supervisor` | The life of a pipeline and its upgrades; which pipelines run |
| `registry`, `native_loader`, `processor`, `processor_auth` | Processors: versions, loading, the identity one, who may connect |
| `partition_map`, `partition_ownership`, `partition_install`, `poh_probe` | Which node owns a partition, and how it is handed over |
| `rest_api`, `metrics_server` | Routing, access, and what each request is answered |
| `retention_probe`, `subject_export` | How long data is kept, and finding what belongs to a person |
| `retry`, `shutdown`, `time`, `text`, `name_map`, `ids`, `digest`, `types`, `definition`, `error` | What the others share |

The crates `uuid`, `hex`, `base64`, `sha2`, `rand` and `rtrb` are called through small functions whose
contracts are taken on trust; each says which outside function it calls and what it claims.
