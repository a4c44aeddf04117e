# vm_circuit

A verified model of the execution circuit of the zkMove virtual machine, a
zkVM that proves the execution of Move functions.

`src/` holds the circuit's logic, checked by Verus:

- `expr`, `builder`, `base_builder`: polynomial expressions over the Pallas
  base field, their integer evaluation modulo the field order, and the
  builder that collects an execution gadget's constraints, lookups and
  cross-row requirements.
- `math_gadgets`: is-zero, range, comparison, addition and less-than
  gadgets, each with a soundness law (what a satisfying witness means) and a
  completeness law (the witness that `assign` computes satisfies it).
- `executions`: one gadget per Move instruction family. Each `configure`
  states its exact list of constraints; the main ones also have a law that
  says what the list proves (`lemma_add_sub_sound`, `lemma_cast_sound`,
  `lemma_read_ref_row`, `lemma_version_below_clock`, ...). Each `assign`
  states the witness values it computes.
- `lookup_table`, `selector`, `sub_index`, `shuffle`, `step`,
  `step_witness`: the lookup tables, the opcode selector, the encoding of
  sub indexes into nested values, the permutation of memory operations and
  the per-step witness.
- `instructions`: the gates of the single-row step chip for `BrTrue`,
  `LdU8`, `Sub` and `Ret`. The gates they share with other instructions
  (a load, a binary operation) are recorded by kind, not spelled out.
- `field`: the field arithmetic, which calls `halo2_proofs`' `Fp` through
  five small trusted wrappers.

`app/` holds what Verus does not see: the bridge to `halo2_proofs`' layouter
and column types.

Not included: the multiplication, division and shift instructions, whose
multiply-add gadget is not available here.

The soundness laws that need the field order to be prime (so that
`x * (1 - x) = 0` makes `x` a bit) take it as one hypothesis,
`field::field_is_prime`, together with `field::field_witness` (every cell
holds a field element, as `utils::lemma_table_witness_in_field` shows of a
table). The primality of the Pallas base field is not proved here.
