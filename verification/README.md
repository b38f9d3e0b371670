# pyqir

Tools for QIR, the quantum intermediate representation on top of LLVM IR:
code generation for a semantic model of a quantum program, a JIT runner that
reports the gates a program applies, and the rules behind the Python classes
that wrap LLVM contexts, modules, values and builders.

## Layout

- `src/` is the verified library.
  - `model.rs`: the semantic model (registers, qubits, instructions).
  - `emit.rs`: code generation as a plan of builder steps; `flow.rs` proves
    that the control flow of every plan is sound.
  - `intrinsics.rs`: the runtime functions a program calls, their binding
    under the JIT, and the recording of the gates a run applies.
  - `jit.rs`: choosing and checking the entry point.
  - `dispatch.rs`: telling a Python observer of a run.
  - `owner.rs`, `builder.rs`, `shape.rs`: ownership of LLVM objects, the
    checks of the instruction builder, and which class wraps which object.
  - `convert.rs`: opcodes, predicates, linkages and flag behaviors with their
    LLVM numbering; `text.rs`: decimals and text helpers.
- `app/` holds the Python extension: the native handlers, the JIT run, the
  lowering of plans to LLVM, and the Python classes.
- `tests/` holds the tests of the library.
