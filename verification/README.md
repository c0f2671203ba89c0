# peios

The userspace library of the Peios kernel, verified with Verus: access control (SIDs, access
control lists, security descriptors, SDDL, inheritance, tokens and sessions), events
(MessagePack payloads, emission and the shared rings), and the registry.

- `src/` is the library. It holds every format, rule and decision, each function with a
  contract; the laws that relate several functions are public proof functions whose names begin
  with `law_`. Null pointers appear as `Option` or `Span`, addresses that only the kernel follows
  as `u64`, and output buffers as the `Emit` rule of `abi`.
- `tests/` runs the library on concrete values.
- `app/` is the C interface. It turns pointers into borrowed memory, calls the kernel and hands
  results out.

The one thing believed without proof is what `core::str::from_utf8` says about a byte string
(`bytes::is_utf8`).
