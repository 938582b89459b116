# js_typegen

The decisions behind writing JavaScript/TypeScript files for types exposed
over a C ABI, verified with Verus.

- `src/order.rs`: code-point order on strings, with its order laws.
- `src/imports.rs`: the import set of a file, listed in increasing order.
- `src/context.rs`: the generation context and the values handed to the
  file, enum, opaque and struct templates.
- `src/fields.rs`: struct fields, their allocators, conversions and padding.
- `src/methods.rs`: method parameters, their C-call arguments and cleanup,
  and method declarations.
- `src/lifetimes.rs`: lifetimes, borrow information and lifetime edges.
- `app/lib.rs`: conversions from diplomat's HIR (`diplomat_core`) to the
  library's plain values.
