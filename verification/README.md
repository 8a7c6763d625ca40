# gigatoken_fastpath

The decisions behind an optional fast path for prompt encoding, verified with
Verus.

A gateway that serves a HuggingFace tokenizer may route prompt encoding to a
faster tokenizer. The failure mode is always to fall back to the HuggingFace
tokenizer, never to serve different tokens.

## Layout

- `src/settings.rs`: what the environment variables ask for.
- `src/reference.rs`: the HuggingFace tokenizer, as the self-check reads it.
- `src/instance.rs`: running an instance of the fast tokenizer.
- `src/parity.rs`: the load-time self-check and its probes.
- `src/ring.rs`: the order in which a call looks for a free pool slot.
- `src/slots.rs`: the slots' locks, and the scan over them.
- `src/ragged.rs`: cutting a ragged batch result into rows.
- `src/encoder.rs`: the pooled encoder, single and batched.
- `src/serving.rs`: what callers of the encoder can rely on.
- `src/disabled.rs`: the encoder of a build without the fast path.
- `src/timing.rs`: encode latency accounting.
- `app/`: environment, files, log lines, and the calls into gigatoken, which is
  not published in a registry and is compiled in with the `gigatoken` feature.

## Settings

| variable | meaning |
|---|---|
| `SMG_TOKENIZER_BACKEND=gigatoken` | use the fast path |
| `SMG_GIGATOKEN_SLOTS=N` | pool size, 8 by default, at least 1 |
| `SMG_TOKENIZER_TIMING=1` | report encode latency every 256 calls |

## What is trusted

The contracts of the items in `src/reference.rs` on the `tokenizers` crate, of
`str::parse` in `src/settings.rs`, and of `Duration::as_nanos` in
`src/timing.rs`. Of locks, shared counters and the clock nothing is claimed:
contracts speak of the calls that were made and of what came back from them.
The self-check asks its callers for a HuggingFace tokenizer that returns, with
ids or an error, on every probe.
