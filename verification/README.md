# deep_learn

A small feed-forward neural-network library written in Verus.

- `src/` is the verified library: activation kinds and their one-byte
  identifiers, layers (parameters kept as the IEEE-754 bit patterns of
  single-precision floats, in `nalgebra` matrices), the model builder with its
  shape checks, the shape checks that guard predictions, and the versioned
  binary format in which models are saved and loaded, with the proof that
  loading gives back what was saved.
- `app/` holds what Verus does not check: the floating-point arithmetic
  (activations, forward pass, training with momentum, prediction), random
  weight initialisation, file input/output, and the error type's messages.
- `tests/` exercises the library on concrete values.
