# Place handles

A verified model of the *handles* design for field projections in Rust.

Every place expression (`local`, `*place`, `place.field`, `place[idx]`) is
represented by a **handle**, and every place operation (read, move, write,
borrow, dereference, project, drop) is a trait that handles implement. Each
operation states the access permission it needs from the borrow checker and
whether those permissions alone make it safe.

The operations act on an explicit, byte-addressed `Memory` in which every byte
is unallocated, uninitialized or initialized; pointers are addresses with
metadata, and the standard pointer types (`&T`, `&mut T`, `Box<T>`, `Pin<P>`,
`Arc<T>`, `Vec<T>`) are stored in memory as their addresses. The safety
requirements of the place operations are their `requires`, and what they do is
their `ensures`.

Layout of `src/`:

- `memory` — the address space and its byte-level operations.
- `ptr` — pointers, metadata, layouts; `ptr::raw` and `ptr::non_null` hold the
  place operations on raw and non-null pointers and the laws about places
  (read after write, disjoint places, projections).
- `ops` — the place operation traits.
- `borrowck` — access kinds and timings.
- `subplace` — fields, array and slice elements, transmuted subplaces, enums.
- `local`, `reference`, `boxed`, `pin`, `deref`, `sync`, `vec`, `cell`,
  `option`, `mem` — the handles of local variables and of the standard pointer types,
  and the place wrappers.
- `envelope` — an encrypted value whose fields can be borrowed and decrypted
  one at a time.
