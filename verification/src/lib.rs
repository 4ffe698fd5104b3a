//! Verified core of a voxel-field slicer: the voxel grid layout, occupancy
//! analysis and propagation kernels, mesh topology, the file formats the
//! slicer reads and writes, the command-line grammar, and the rules of its
//! settings and outputs.

pub mod binary64;
pub mod text;

pub mod grid;
pub mod occupancy;
pub mod kernel;
pub mod kernel_file;
pub mod mesh;
pub mod clip;

pub mod bmp;
pub mod ply;
pub mod stl;

pub mod config;
pub mod settings;
pub mod settings_form;
pub mod cli;
pub mod paths;
pub mod job;
pub mod progress;
pub mod toolpath;
