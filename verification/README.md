# opengl_project

The world logic of a voxel game, verified with Verus: block and chunk positions,
chunks and chunk maps, terrain layering, the meshing of chunks into GPU vertex and
index buffers (plain faces, and faces with ambient occlusion), and the server's
world state (chunk requests, generation around players, the view cube a player
loads, acknowledgement numbering).

- `src/common`: positions, blocks, chunks, chunk maps, bit-vectors.
- `src/mesh`: vertex packing and the two meshers.
- `src/game`: the client's chunks and world, which chunks are meshed now or later,
  and which are dropped as the player moves.
- `src/server`: the server's chunk map, world events, connections, connected players,
  compressed meshes.
- `app/`: the threads and channels around the library, and the floating-point
  terrain noise.
- `tests/`: tests of the library on concrete values.
