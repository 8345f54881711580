# hulk

The front end of a compiler for the HULK language, written in Verus and
verified: tokens, the syntax tree and its traversal, an LL(1) parser proved
against a grammar stated as spec functions, macro pattern matching, and the
semantic vocabulary (types, lexical environment, type registry with its
builtins, diagnostics) together with the inheritance checks of the hierarchy
pass: undefined and value-type parents, cycles of parent links, override
signatures, protocol extension, a parents-first order and flattened member
tables; type conformance and protocol implementation; and the typing rules of
inference (operators, literals, variables, `self` and `base`, members,
conditions, loop elements, bindings, assignments, call and parent-constructor
arguments, construction, `is`, `as`, indexing) with the constraints that calls
and operators record on parameters being inferred, the opening and completion
of a function's signature around the inference of its body (parameter
constraints, resolved parameter and return types written back into the
registry), the typed syntax tree, the checking pass over it (unresolved types,
attribute privacy, annotations) and the final split of diagnostics into a
verified program or its hard errors. Laws of the grammar state how operators
group. The layout queries of the code generator (ancestors, method owners,
subtypes) and the options and errors of code generation live beside them.

- `src/` — the verified library.
- `tests/` — tests that run the compiled library.
- `app/` — the command-line pieces: arguments, reading the source file, and
  turning diagnostics into printed lines and exit codes.
