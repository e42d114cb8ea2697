# veritas

Verified core of an image-provenance service: a signer hashes and signs an
image, an editor applies an authorised edit (crop, grayscale, 3x3 box blur,
bilinear resize) and proves it with a Plonky2 circuit, and a client checks the
package.

## Layout

- `src/` — the library, verified with Verus.
  - `image_io.rs` — pixel vectors, the four edits, PNG/JPEG decoding and PNG encoding.
  - `signer.rs` — the lattice hash, the signing preimage of each mode, key
    generation and signature assembly.
  - `circuit.rs` — edit circuits as data (gates, constraints, public wires,
    witness) and their meaning over the Goldilocks field.
  - `proofs.rs`, `prover.rs` — the circuit of each edit, with the laws that
    give its public values and when its witness satisfies it; proof packages.
  - `client.rs` — verification of a proof package.
  - `jobs.rs`, `api.rs` — job records and the request logic of the HTTP API.
  - `encoding.rs`, `support.rs` — bincode, base64, clock and number formatting.
- `tests/` — tests of the library, including an evaluator of circuit plans.
- `app/` — the HTTP server (actix-web), the serde wire formats, and the
  Plonky2 back end that builds and proves the planned circuits.
