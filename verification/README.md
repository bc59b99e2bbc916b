# rpl_constraints

Predicates on the locals of a MIR body, verified with Verus.

A body is read once. For each local the cache then knows whether it is null, if the value last
assigned to it shows that: a constant or another local, cast or not. After any other value nothing
is known. For each two locals the cache knows whether the first may be a product or a quotient of
the second. Further predicates ask a null-pointer analysis or an interval analysis of the body:
whether a pointer is null, how a local compares with a constant, and whether an index is in bounds.
Each analysis runs when it is first needed, and only once.

* `src/` is the library. It works on plain data. The analyses, and casts from and to floating-point
  numbers, are handed in as closures, so every decision is verified for whatever they return. The
  index vectors of `rustc_index` (published as `ra-ap-rustc_index`) hold the cache;
  `src/index_vec.rs` has all that is believed of them.
* `app/` joins the library to the compiler and to the `mirsa` analyses, and casts floating-point
  numbers. It needs a nightly toolchain with the `rustc-dev` component.
* `tests/` runs the library.
