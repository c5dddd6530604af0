# blob_nixos

The root-owned NixOS side of The Blob: it turns a canonical SystemSpec into an
immutable candidate, materializes it, publishes a polkit-authorized activation
request, and runs that activation exactly once on the local node, restoring the
recorded baseline when a temporary activation does not end where it must.

- `src/` is the library, verified with Verus: the record formats and their
  parsers, the translation to NixOS modules, every decision of the producer,
  the begin queue, the admission authority, the lifecycle manager, the source
  reclaimer, the publisher, the permit issuer, the request store and the
  privileged helper. Outside answers (the file system's facts, `pkcheck`, the
  activation host, the Nix store) are taken as arguments or through the
  traits the library leaves to its users.
- `app/` performs the file system, process and clock work around those
  decisions and hands the library plain values.
- `tests/` holds the scenarios, run against the compiled library.
