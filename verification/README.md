# Tactical Mapper

A local LiDAR mapping tool for GPS-denied operation: it reads point clouds
(Velodyne `.bin`, ASCII `.pcd`, ASCII `.ply`), replays a recorded scan into a
foveated 2.5D cell map, labels cells with rule-based classes and stores frames,
cells and detected objects in PostgreSQL.

## Layout

- `src/` is the verified library:
  - `text` — whitespace, trimming, tokens and lines over characters;
  - `records`, `ascii`, `pcd`, `ply` — the ASCII readers, from text to the
    value tokens of each point;
  - `velodyne` — the binary layout, from bytes to the bit patterns of each
    value, with its round-trip laws;
  - `format` — choosing the reader from the file extension;
  - `voxel` — grouping points by voxel for down-sampling;
  - `classes` — class names and colours;
  - `replay` — the replay order of the recorded scan and the bounded trail;
  - `storage` — batching of stored commands and the storage health;
  - `install` — PowerShell quoting, the shortcut script, the installation steps
    and the database connection settings.
- `app/` is the program around it: the egui window, the Tokio/PostgreSQL
  storage worker, file reading, and all floating-point work (filtering, voxel
  means, motion, classification).
- `tests/` exercises the library.

The program reads its replay scan (`mock_lidar_stream.json`) and database
schema (`schema.sql`) at start-up, from `TACTICAL_MAPPER_DATA_DIR`, the
executable's directory, or `src/` and `../db/` below the working directory.
If the schema cannot be read, storage is reported as degraded.
