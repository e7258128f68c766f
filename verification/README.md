# llmd_coordinator

The coordinator of disaggregated inference: it prepares a client's request,
leads it through encode, prefill and decode workers, and follows the streams of
their answers. The library in `src/` is verified with Verus; `app/` runs it as
filters of the Praxis proxy, with the network, the environment and YAML around
it.

| Module | What it holds |
|---|---|
| `text`, `json`, `yaml`, `headers`, `codec` | strings, and the values of outside crates with their models |
| `state`, `connectors` | what the stages share about a request, and what workers hand to each other |
| `transform` | the requests that workers get |
| `preprocessing`, `media` | rendered requests, and media made inline |
| `filter`, `prepare`, `stage` | the filters that prepare a request and make the request of a stage |
| `sse`, `stream_events` | event streams, and the predecessor put back into them |
| `config`, `translate` | the coordinator's configuration and the native one it stands for |
