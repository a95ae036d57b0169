# procgen

The verified core of a procedural terrain generation server for Minecraft: voxel
containers, chunk formats, the packet and frame formats of the protocol, and the server's
decisions about requests. Verus checks the functions in `src/` against their contracts; the
few calls into outside crates (zlib compression, the hash map of sparse chunks, random
numbers, reading a stream) stand behind small `external_body` wrappers whose contracts are
trusted, not proved, and whose doc comments say what they claim.

- `src/volume.rs`, `src/section.rs`, `src/chunk.rs`: fixed-size volumes, 16x16x16 chunk
  sections, and column chunks addressed in local, chunk or world space.
- `src/voxel.rs`, `src/voxel_volume.rs`: sparse chunks and volumes made of them (unbounded, or
  clipped to a bounding box).
- `src/packets.rs`, `src/framing.rs`: packet buffers, packet types, and zlib-compressed frames.
- `src/generation.rs`, `src/service.rs`, `src/demo.rs`: generator registries, request
  handling, and the demonstration generator.
- `src/jvm.rs`: names and signatures of the Java classes the plugin builds.
- `app/main.rs`: the server program (networking and serialization around the library).
