//! Surface extraction for chunked voxel terrain: the discrete core of a
//! cube-marching mesher, stated and proved over exact integer models.

pub mod density;
pub mod marching_cubes;
pub mod table;
pub mod terrain;
pub mod volume;
