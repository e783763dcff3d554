//! Tactical Mapper's verified core: reading point-cloud files into point
//! records, grouping points by voxel, the map's class vocabularies, the replay
//! bookkeeping of the recorded scan, the batching of stored commands, and the
//! installation steps.
pub mod ascii;
pub mod classes;
pub mod format;
pub mod install;
pub mod pcd;
pub mod ply;
pub mod records;
pub mod replay;
pub mod storage;
pub mod text;
pub mod velodyne;
pub mod voxel;
