//! Engine support library: PNG decoding, keyboard and game-action input,
//! fixed-step frame pacing, walk-cycle decisions, mesh bookkeeping and the
//! index topology of generated meshes.

pub mod car;
pub mod color_conversion;
pub mod color_format;
pub mod error;
pub mod game_input;
pub mod game_loop;
pub mod gl_pipeline;
pub mod input;
pub mod mesh_indices;
pub mod player;
pub mod png_read;
