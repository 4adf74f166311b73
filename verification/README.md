# myth_image

CPU-side image data for a renderer, verified with Verus.

- `src/format.rs`: pixel formats, their block geometry, and the GPU formats they become
- `src/mip.rs`: extents and sizes of mip levels, and which payloads form a chain
- `src/image.rs`: static, empty and dynamic images
- `src/shared.rs`: the locked buffer behind a dynamic image
- `src/ktx.rs`: loading KTX2 containers
- `src/mipmap.rs`: the order of work on a batch of mip generation
- `src/error.rs`, `src/text.rs`: errors and their messages
- `app/`: the parts that need a device, and `Display` for errors

Proof functions whose names start with `law_` state what holds of the library as a
whole. What is taken on trust of the `ktx2`, `parking_lot` and `uuid` crates stands
in the functions marked `external_body`, each with a comment that says what it claims.
Of `wgpu` only the texture format and dimension enums are declared; nothing is claimed
of its functions.
