# screening

Address screening at transaction-pool admission, verified with Verus.

- `src/address.rs`: 20-byte addresses, their byte-wise order, and ascending
  duplicate-free address lists.
- `src/calldata.rs`: the addresses a transaction exposes for screening (sender,
  recipient, EIP-7702 authorizations, access list, and token-transfer calldata
  decoded from ABI words).
- `src/client.rs`: the sidecar client configuration (fail mode, builder, endpoint
  check) and what a sidecar reply means under the configured fail mode.
- `src/args.rs`: the screening parameters and their defaults.
- `app/`: the command-line flags (clap), the asynchronous gRPC client (tokio,
  tonic) and conversions from `alloy_primitives` values.
