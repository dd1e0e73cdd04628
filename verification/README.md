# ebpf_tracker

The decision-making core of the `eBPF_tracker` command line, written in Verus
and proved against its specifications.

- `src/` is the verified library:
  - `text`: character-level string operations (trim, prefix and suffix
    tests, decimal and hexadecimal formatting, path joining) with their
    specifications.
  - `analysis`: model providers, endpoint and model resolution, prompt
    assembly, event sampling, file-name sanitising and the `Authorization`
    header of an analysis request.
  - `json`: JSON documents, their mathematical view, and the text of a chat
    completion reply.
  - `chat`: the analysis request (LM Studio's native chat API with
    reasoning off, or the OpenAI-compatible API): URL, body, API-key header,
    and the text of the reply.
  - `number`: `u32` and float literal recognition as the standard library
    parses them.
  - `intelligence`: the `--intelligence*` command-line options, read and
    written back, with the law that reading undoes writing.
  - `worker`: the intelligence worker as a state machine from event to next
    action and status.
  - `runtime`: runtime selection, compose file search, per-project cache
    directories and the embedded runtime's location.
  - `compose`: the `docker compose run` invocation.
  - `shell`: quoting for `/bin/sh`, with the law that a quoted command reads
    back word for word.
  - `dashboard`: the dashboard's argument lists and the watch that picks the
    viewer's address out of its error stream.
- `tests/` runs the library on concrete values.
- `app/` is the unverified shell around it: file and network I/O, process
  spawning, threads, and the serde copies of library types.
