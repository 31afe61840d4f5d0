# toucan_semantic

The semantic rules of a C frontend, verified with Verus: integer constant
evaluation and conversions, fixed-vector constant folding, typedef resolution, type and object alignment,
brace-enclosed initializers (brace elision, designators, flexible array
members, completed array bounds) and static address constants, the rules a
type must meet before a target lays it out, object-size provenance,
overflow intrinsics, x86 target attributes, string and character literals,
switch and block-declaration rules, the capture of the typedef aliases
parameter types are written with, the metadata budget of retained object
values, and the source adaptations the parser needs.

Facts that need the parsed syntax tree or a target layout engine (an
expression's type, a layout's size, whether two types are compatible) are
handed to the rules as plain values inside small expression models such as
`ValueNode`, `VectorNode`, `PointerNode`, `StaticNode`, `SiteNode`,
`EffectNode` and `InitializerNode`; the
rules themselves, and what they return for every value of those facts, are
stated in `requires`/`ensures` and proved.

Layout:

- `src/` — the verified library, one module per area; `src/lib.rs` lists them.
- `tests/` — executable tests of the library's public functions.
