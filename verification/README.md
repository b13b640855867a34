# Lucy front end

The parser and bytecode compiler of the Lucy language, with their behaviour
stated in contracts and proved with Verus.

Layout of `src/`:

- `token.rs`, `operator.rs`: the tokens the parser reads and the operators of
  the language.
- `syntax.rs`: syntax trees and their mathematical views.
- `grammar.rs`: the grammar, as spec functions from a token list and a
  position to a tree and the next position.
- `parser.rs`: `LucyParser`, a recursive-descent parser; every parsing
  function is proved to agree with its grammar function.
- `name_map.rs`: a small map from names to values, viewed as a `Map`.
- `ty.rs`: types, class types and the arena that numbers them, and how types
  are written in messages.
- `bytecode.rs`: opcodes, instruction encoding, constants and prototypes.
- `scope.rs`: scopes, namespaces and name resolution.
- `compiler.rs`: `LucyCompiler`, its state, libraries of native functions and
  the operations on prototypes and constant tables.
- `typing.rs`: type annotations, the static type of an expression, and the
  type checks.
- `codegen.rs`: compiling statements and expressions to bytecode.
- `laws.rs`: properties that span several operations.

The tests under `tests/` exercise the parser, the compiler and the support
modules on concrete programs.

What is not here: the language's lexer, its virtual machine and its bytecode
dumper, which the command-line driver needs, are not part of this source
tree, so there is no driver. An older recursive-descent parser (its `Parser`,
`Parameter` and `VType`-annotated syntax tree) is not part of the program
either: nothing declares it as a module, and the type module and lexer
function it relies on are absent, so it was left out as dead code.

Reading the source file of an imported path is the host's work: the library
does no file I/O. A host that compiles a program with a static import of a
source file first parses that file and registers it with
`LucyCompiler::import_file`; compiling the import of a path that no library
and no registered file provides fails with `CompileError::MissingImport`.

A namespace builder holds the compiler's table of native functions while a
library is being built, and `lulib_openlib` and `lulib_register_namespace`
take the table back from the builder that the building closure returns. The
host keeps each native function itself under the index that the table
gives it.
