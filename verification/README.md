# nugget_bls

BLS signatures on BLS12-381 with a Chaum-Pedersen DLEQ proof attached to
each signature, public keys held in several groups (G1, G2 and a sister
group, here G1), and Straus-Shamir dual scalar multiplication with a GLV
variant, verified with Verus.

Points and scalars are plain values: a point is its canonical uncompressed
encoding, a scalar its four canonical little-endian limbs. Group and field
arithmetic, hashing and serialization are done by arkworks and `sha2`
through small trusted wrappers whose results are named by uninterpreted
spec functions.

- `src/scalar.rs`, `src/group.rs`: scalars, points of G1 and G2, and the wrappers.
- `src/dual_scalar_mul.rs`: subset-sum tables, the plain and GLV dual scalar
  multiplications and the sign index.
- `src/nugget.rs`, `src/chaum_pedersen_signature.rs`: keys, messages,
  signatures, signing and verification.
- `src/double_nugget.rs`, `src/double_nugget_glv.rs`, `src/triple_nugget.rs`:
  the public key types and their serialization, compressed or uncompressed;
  decoding reads the parts in order and returns the `SerializationError` of
  the first part that fails. An uncompressed point is accepted only when its
  compressed form decodes back to it, so a pair off the curve is refused.
- `src/correctness.rs`: what the loops compute under the abelian group laws
  (`a*P + b*Q`, symmetric in the two pairs), the negation structure of the
  precomputed table, and that a signature made by the signer verifies.
