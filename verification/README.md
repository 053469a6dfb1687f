# cairo_circuit

The circuit extension of Sierra, verified with Verus: the circuit types (`CircuitInput`,
`AddModGate`, `Circuit` and the types built on a circuit), the validation of their generic
arguments, the signatures of the circuit libfuncs, and the layout of a circuit in the values
array and the add/mul builtins.

Layout of `src/`:

- `ids.rs`: identifiers, generic arguments and big integer values, with their models.
- `types.rs`: type information, specialization errors and the type specialization context.
- `circuit.rs`: the circuit types, their validation and their specialization.
- `circuit_info.rs`: the layout of a circuit (`parse_circuit_inputs`, `get_circuit_info`).
- `signature.rs`: libfunc signatures and the signatures of the circuit libfuncs.
- `hierarchy.rs`: the circuit types and libfuncs, looked up by id and specialized.
- `registry.rs`: an in-memory registry of declared types that implements both contexts.
- `laws.rs`: properties of the layout, proved over the models.

`tests/` runs the library on concrete registries.
