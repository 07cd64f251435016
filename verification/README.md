# sipster

The logic of Sipster, a desktop SIP softphone, as a Verus-verified library.

- `src/` — the library. Every function carries a `requires`/`ensures`
  contract that Verus proves; the few calls into outside crates (UUIDs,
  MD5, SHA-256, ChaCha20-Poly1305, base64, UTF-8 and Unicode case mapping
  of std) sit behind small trusted wrappers whose contracts are documented
  where they are declared.
- `tests/` — the library's tests, run against the compiled crate.
- `app/` — the I/O around the library: the config file and its key, the
  single-instance lock and control socket, HTTP to the router, Google and
  CardDAV, D-Bus to Evolution Data Server, the PipeWire tools, and the
  on-disk stores. It decides nothing the library does not.

Verify with Verus on `src/lib.rs`; the laws the library keeps are the
public `law_*` proof functions next to the code they speak of.
