# evoxy

Multi-tenancy for OpenSearch behind a stock Envoy, with the routing logic verified in
Verus.

A client's request is adapted, resolved to a partition and a placement by a tenancy,
rewritten for that placement, and forwarded by the proxy. On the way back, its response
is shown in the client's own terms. Documents of a shared index carry their partition,
searches are enclosed in a filter on it, and document ids are scoped by it.

## Layout

- `src/` is the library. Its contracts are proved, except for those of the items in
  `json.rs`, `rewrite.rs`, `text.rs` and `extproc.rs` that make a call into `serde_json`,
  `osproxy_rewrite` or the standard library: these say in their doc comments what they
  assume.
- `tests/` runs the library, with the tenancy resolved by the engine's own router.
- `app/` is the deployment side: the tenancy engine, the broker, the gRPC service, the
  in-process module and the workspace's automation.

The library does not wait and does no input or output. Where a request needs the
tenancy or a broker, a function returns the step to take next, and the caller hands
the answer to the function that goes on from there.
