# tower

A small stack-based language: a scanner and parser that turn source text into a parse
tree, an analyser that works out the stack effect of every function and gives a typed
tree, an interpreter that runs `main`, and the decisions of an LLVM-based compiler (which
LLVM type stands for each tower type, in which order the functions are compiled).

- `src/` is the library, written in Verus: its functions carry contracts over a
  mathematical model of their data, and Verus proves them. Definitions by name are kept in
  `Vec`s of pairs sorted by name (`src/sorted.rs`): the persistent maps and vectors of the
  `im` crate are recursive types that Verus does not accept as declared outside types.
- `tests/` runs the library on concrete programs.
- `app/` is the command-line program: it reads a source file, prints the trees, runs the
  interpreter, and makes the LLVM calls that carry out the compiler's decisions.
