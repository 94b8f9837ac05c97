# dice_backend

The front end of a small language for dice probabilities, verified with Verus.

A program declares constants and functions and ends in one `analyze`
expression. The library takes its abstract syntax tree through these stages:

- `namespace`: the declarations are gathered with the standard library, names
  are resolved and every expression is lowered into typed block expressions.
- `cfgbuilder`: the blocks become hashed expressions, each stored under the
  SeaHash of its bytes, with identifiers in place of names.
- `inliner`: calls of the program's functions are replaced by their bodies,
  environment values are read, and constant operations are folded.
- `ordering`: the inlined expressions become a graph in which every node knows
  what it reads and what reads it, with rewrites of that graph and the
  optimizations built on them.
- `linkage`, `notacfg`: a tree form of the root expression, and the gathering
  of global names.
- `printing`: the printed form of the syntax.

Every function states its behaviour in `requires` / `ensures` over
mathematical models (`Seq`, `Map`, views), and the `laws` modules prove the
properties that relate several functions. The calls into `seahash`,
`smallvec` and `itertools` stand behind small trusted wrappers whose
contracts are written next to them.
